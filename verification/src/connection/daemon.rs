//! The daemon that shares one brain connection with several clients over TCP: its
//! commands, its framing and the decisions of a client session.
use vstd::prelude::*;
use crate::bytes::be16;
use crate::buffer::ReceivingBuffer;

verus! {

/// What a daemon client asks for.
#[derive(Copy, Clone, Debug, PartialEq, Eq, Structural)]
pub enum DaemonCommand {
    SendSystem,
    SendUser,
    ClaimExclusive,
    UnclaimExclusive,
    Reset,
}

impl DaemonCommand {
    pub open spec fn spec_id(self) -> u8 {
        match self {
            DaemonCommand::SendSystem => 0,
            DaemonCommand::SendUser => 1,
            DaemonCommand::ClaimExclusive => 2,
            DaemonCommand::UnclaimExclusive => 3,
            DaemonCommand::Reset => 4,
        }
    }
}

/// The command a byte stands for: 0 to 4 in the order of the variants.
pub open spec fn daemon_command_of(value: u8) -> Option<DaemonCommand> {
    if value == 0 {
        Some(DaemonCommand::SendSystem)
    } else if value == 1 {
        Some(DaemonCommand::SendUser)
    } else if value == 2 {
        Some(DaemonCommand::ClaimExclusive)
    } else if value == 3 {
        Some(DaemonCommand::UnclaimExclusive)
    } else if value == 4 {
        Some(DaemonCommand::Reset)
    } else {
        None
    }
}

impl From<DaemonCommand> for u8 {
    fn from(command: DaemonCommand) -> (id: u8) {
        match command {
            DaemonCommand::SendSystem => 0,
            DaemonCommand::SendUser => 1,
            DaemonCommand::ClaimExclusive => 2,
            DaemonCommand::UnclaimExclusive => 3,
            DaemonCommand::Reset => 4,
        }
    }
}

impl vstd::std_specs::convert::FromSpecImpl<DaemonCommand> for u8 {
    open spec fn obeys_from_spec() -> bool {
        true
    }

    open spec fn from_spec(v: DaemonCommand) -> u8 {
        v.spec_id()
    }
}

impl TryFrom<u8> for DaemonCommand {
    type Error = ();

    fn try_from(value: u8) -> (r: Result<DaemonCommand, ()>) {
        if value == 0 {
            Ok(DaemonCommand::SendSystem)
        } else if value == 1 {
            Ok(DaemonCommand::SendUser)
        } else if value == 2 {
            Ok(DaemonCommand::ClaimExclusive)
        } else if value == 3 {
            Ok(DaemonCommand::UnclaimExclusive)
        } else if value == 4 {
            Ok(DaemonCommand::Reset)
        } else {
            Err(())
        }
    }
}

impl vstd::std_specs::convert::TryFromSpecImpl<u8> for DaemonCommand {
    open spec fn obeys_try_from_spec() -> bool {
        true
    }

    open spec fn try_from_spec(v: u8) -> Result<DaemonCommand, ()> {
        match daemon_command_of(v) {
            Some(c) => Ok(c),
            None => Err(()),
        }
    }
}

/// A command written as its byte reads back as the same command, and only bytes 0 to 4
/// stand for commands.
pub proof fn lemma_daemon_command_roundtrip(command: DaemonCommand, value: u8)
    ensures
        daemon_command_of(command.spec_id()) == Some(command),
        daemon_command_of(value) matches Some(c) ==> c.spec_id() == value,
        daemon_command_of(value) is None <==> value > 4,
{
}

/// A message to or from the daemon: the command byte, the length of the data as 16
/// big-endian bits (cut to 16 bits, as `len as u16` does), then the data.
pub open spec fn daemon_message(command: DaemonCommand, data: Seq<u8>) -> Seq<u8> {
    seq![command.spec_id()] + be16((data.len() % 0x10000) as u16) + data
}

/// The bytes that carry `data` after a command byte to the daemon.
pub fn daemon_message_bytes(command: DaemonCommand, data: &[u8]) -> (bytes: Vec<u8>)
    ensures
        bytes@ == daemon_message(command, data@),
{
    let mut bytes: Vec<u8> = Vec::new();
    bytes.push(u8::from(command));
    let len = (data.len() % 0x10000) as u16;
    bytes.push((len / 256) as u8);
    bytes.push((len % 256) as u8);
    let ghost head = bytes@;
    crate::packet::append_raw(&mut bytes, data);
    proof {
        assert(head =~= seq![command.spec_id()] + be16((data@.len() % 0x10000) as u16));
    }
    bytes
}

/// What a client sends to have a system packet relayed to the brain.
pub fn send_system_request(data: &[u8]) -> (bytes: Vec<u8>)
    ensures
        bytes@ == daemon_message(DaemonCommand::SendSystem, data@),
{
    daemon_message_bytes(DaemonCommand::SendSystem, data)
}

/// What carries bytes for the user program (from a client to the daemon, and from the
/// daemon to every client).
pub fn send_user_message(data: &[u8]) -> (bytes: Vec<u8>)
    ensures
        bytes@ == daemon_message(DaemonCommand::SendUser, data@),
{
    daemon_message_bytes(DaemonCommand::SendUser, data)
}

/// The daemon's answer to a system packet: the brain's response, its length first as 16
/// big-endian bits (cut to 16 bits).
pub fn system_response_message(response: &[u8]) -> (bytes: Vec<u8>)
    ensures
        bytes@ == be16((response@.len() % 0x10000) as u16) + response@,
{
    let mut bytes: Vec<u8> = Vec::new();
    let len = (response.len() % 0x10000) as u16;
    bytes.push((len / 256) as u8);
    bytes.push((len % 256) as u8);
    let ghost head = bytes@;
    crate::packet::append_raw(&mut bytes, response);
    proof {
        assert(head =~= be16((response@.len() % 0x10000) as u16));
    }
    bytes
}

/// A client reads the daemon's relayed response from just past the response header,
/// command, length byte, command echo and acknowledgement byte.
pub fn relayed_response(data: Vec<u8>) -> (r: ReceivingBuffer)
    ensures
        r.spec_data() == data@,
        r.spec_pos() == 6,
{
    ReceivingBuffer::new(data, 6)
}

/// What a client session does with the next command from its client.
#[derive(Copy, Clone, Debug, PartialEq, Eq, Structural)]
pub enum SessionAction {
    /// Relay a system packet to the brain, and afterwards keep the connection claimed
    /// for this client or not.
    ForwardSystem { keep_exclusive: bool },
    /// Relay bytes to the user program.
    ForwardUser,
    /// Claim the brain connection for this client alone.
    Claim,
    /// Give the claim up.
    Release,
    /// Ask the daemon to reset the brain connection.
    Reset,
}

/// The action for a command, given whether the session holds the connection; `None` where
/// the session cannot go on: an unknown byte, claiming twice, or releasing without a
/// claim.
pub open spec fn session_action(exclusive: bool, value: u8) -> Option<SessionAction> {
    match daemon_command_of(value) {
        Some(DaemonCommand::SendSystem) => Some(SessionAction::ForwardSystem { keep_exclusive: exclusive }),
        Some(DaemonCommand::SendUser) => Some(SessionAction::ForwardUser),
        Some(DaemonCommand::ClaimExclusive) => if exclusive { None } else { Some(SessionAction::Claim) },
        Some(DaemonCommand::UnclaimExclusive) => if exclusive { Some(SessionAction::Release) } else { None },
        Some(DaemonCommand::Reset) => Some(SessionAction::Reset),
        None => None,
    }
}

/// Whether a session can act on a command byte: it is a known command, and neither a
/// claim of a connection the session holds nor a release of one it does not.
pub fn session_command_allowed(exclusive: bool, value: u8) -> (ok: bool)
    ensures
        ok == session_action(exclusive, value) is Some,
{
    if value == 2 {
        !exclusive
    } else if value == 3 {
        exclusive
    } else {
        value <= 4
    }
}

/// Decides what a client session does with a command byte it can act on.
pub fn next_session_action(exclusive: bool, value: u8) -> (a: SessionAction)
    requires
        session_action(exclusive, value) is Some,
    ensures
        session_action(exclusive, value) == Some(a),
        a matches SessionAction::ForwardSystem { keep_exclusive } ==> keep_exclusive == exclusive,
{
    if value == 0 {
        SessionAction::ForwardSystem { keep_exclusive: exclusive }
    } else if value == 1 {
        SessionAction::ForwardUser
    } else if value == 2 {
        SessionAction::Claim
    } else if value == 3 {
        SessionAction::Release
    } else {
        SessionAction::Reset
    }
}

/// Whether a session whose client has gone asks for the brain connection to be reset:
/// exactly when it still holds the connection, which it may have left mid-exchange.
pub fn resets_at_end_of_stream(exclusive: bool) -> (reset: bool)
    ensures
        reset == exclusive,
{
    exclusive
}

/// Whether the session holds the connection after an action.
pub open spec fn exclusive_after(exclusive: bool, action: SessionAction) -> bool {
    match action {
        SessionAction::Claim => true,
        SessionAction::Release => false,
        SessionAction::ForwardSystem { keep_exclusive } => keep_exclusive,
        _ => exclusive,
    }
}

/// A session never claims the connection twice nor releases what it does not hold:
/// every action it takes leaves it holding the connection exactly when it claimed last.
pub proof fn lemma_session_claims_alternate(exclusive: bool, value: u8)
    ensures
        session_action(exclusive, value) matches Some(a) ==> (a == SessionAction::Claim ==> !exclusive)
            && (a == SessionAction::Release ==> exclusive),
        session_action(exclusive, value) matches Some(a) ==> (exclusive_after(exclusive, a) == (
        value == 2 || (exclusive && value != 3))),
{
}

/// Whether a session holds the connection after the commands `values`, starting
/// without it; `None` once a command could not be acted on.
pub open spec fn held_after(values: Seq<u8>) -> Option<bool>
    decreases values.len(),
{
    if values.len() == 0 {
        Some(false)
    } else {
        match held_after(values.drop_last()) {
            Some(exclusive) => match session_action(exclusive, values.last()) {
                Some(a) => Some(exclusive_after(exclusive, a)),
                None => None,
            },
            None => None,
        }
    }
}

/// A session comes to hold the connection only by claiming it: after any run of
/// commands that it can act on, it holds the connection exactly when it sent a claim
/// (2) and no release (3) after it. In particular a system packet leaves the
/// connection held only by a session that held it already.
pub proof fn lemma_held_only_after_a_claim(values: Seq<u8>)
    ensures
        held_after(values) matches Some(held) ==> (held <==> exists|i: int|
            0 <= i < values.len() && values[i] == 2 && forall|j: int|
                i < j < values.len() ==> values[j] != 3),
    decreases values.len(),
{
    if values.len() > 0 {
        let front = values.drop_last();
        let v = values.last();
        let n = values.len() - 1;
        lemma_held_only_after_a_claim(front);
        if let Some(ex) = held_after(front) {
            lemma_session_claims_alternate(ex, v);
            if let Some(a) = session_action(ex, v) {
                let claimed = exists|i: int|
                    0 <= i < values.len() && values[i] == 2 && forall|j: int|
                        i < j < values.len() ==> values[j] != 3;
                let claimed_front = exists|i: int|
                    0 <= i < front.len() && front[i] == 2 && forall|j: int|
                        i < j < front.len() ==> front[j] != 3;
                if v == 2 {
                    assert(values[n] == 2);
                    assert(claimed);
                } else if v == 3 {
                    assert(!claimed) by {
                        if claimed {
                            let i = choose|i: int|
                                0 <= i < values.len() && values[i] == 2 && forall|j: int|
                                    i < j < values.len() ==> values[j] != 3;
                            assert(i < n);
                            assert(values[n] != 3);
                        }
                    }
                } else {
                    assert(claimed == claimed_front) by {
                        if claimed {
                            let i = choose|i: int|
                                0 <= i < values.len() && values[i] == 2 && forall|j: int|
                                    i < j < values.len() ==> values[j] != 3;
                            assert(i < n);
                            assert(front[i] == 2);
                            assert forall|j: int| i < j < front.len() implies front[j] != 3 by {
                                assert(front[j] == values[j]);
                            }
                        }
                        if claimed_front {
                            let i = choose|i: int|
                                0 <= i < front.len() && front[i] == 2 && forall|j: int|
                                    i < j < front.len() ==> front[j] != 3;
                            assert(values[i] == 2);
                            assert forall|j: int| i < j < values.len() implies values[j] != 3 by {
                                if j < n {
                                    assert(front[j] == values[j]);
                                }
                            }
                        }
                    }
                }
            }
        }
    }
}

} // verus!
