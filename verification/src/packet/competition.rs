//! Competition control as a value.
use vstd::prelude::*;
use crate::buffer::ReceivingBuffer;
use crate::packet::{append_u8, Packet};

pub use crate::brain::competition::{competition_state_of, CompetitionState};

verus! {

/// Switches the competition state (0x2E): the state byte, then four zeros.
#[derive(Debug)]
pub struct ManageCompetition {
    state: CompetitionState,
}

impl ManageCompetition {
    pub closed spec fn spec_state(&self) -> CompetitionState {
        self.state
    }

    pub fn new(state: CompetitionState) -> (p: ManageCompetition)
        ensures
            p.spec_state() == state,
    {
        ManageCompetition { state }
    }

    /// The answer carries nothing.
    pub fn read_response(&self, _buffer: &mut ReceivingBuffer, _len: usize) {
    }
}

impl Packet for ManageCompetition {
    open spec fn spec_id(&self) -> u8 {
        0x2E
    }

    open spec fn spec_is_simple(&self) -> bool {
        false
    }

    open spec fn spec_send_len(&self) -> nat {
        5
    }

    open spec fn payload(&self) -> Seq<u8> {
        seq![self.spec_state().spec_id(), 0u8, 0u8, 0u8, 0u8]
    }

    open spec fn writable(&self) -> bool {
        true
    }

    fn id(&self) -> u8 {
        0x2E
    }

    fn is_simple(&self) -> bool {
        false
    }

    fn send_len(&self) -> (n: usize)
        ensures
            self.writable() ==> n == self.payload().len(),
    {
        5
    }

    fn write_buffer(&self, buffer: &mut Vec<u8>) {
        append_u8(buffer, u8::from(self.state));
        append_u8(buffer, 0);
        append_u8(buffer, 0);
        append_u8(buffer, 0);
        append_u8(buffer, 0);
        assert(buffer@ =~= old(buffer)@ + self.payload());
    }
}

} // verus!
