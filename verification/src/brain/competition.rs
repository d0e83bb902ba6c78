//! Competition control: switching the robot between disabled, autonomous and driver
//! control.
use vstd::prelude::*;
use crate::bytes::le_bytes;
use crate::connection::{request_prefix, Packet};
use crate::error::ParseError;

verus! {

/// The phase of a competition the brain is told to be in.
#[derive(Copy, Clone, Debug, PartialEq, Eq, Structural)]
pub enum CompetitionState {
    Disabled,
    Autonomous,
    OpControl,
}

impl CompetitionState {
    pub open spec fn spec_id(self) -> u8 {
        match self {
            CompetitionState::Disabled => 11,
            CompetitionState::Autonomous => 10,
            CompetitionState::OpControl => 8,
        }
    }
}

/// The state an id byte stands for: 11 disabled, 10 autonomous, 8 driver control.
pub open spec fn competition_state_of(id: u8) -> Option<CompetitionState> {
    if id == 11 {
        Some(CompetitionState::Disabled)
    } else if id == 10 {
        Some(CompetitionState::Autonomous)
    } else if id == 8 {
        Some(CompetitionState::OpControl)
    } else {
        None
    }
}

impl TryFrom<u8> for CompetitionState {
    type Error = ParseError;

    fn try_from(value: u8) -> (r: Result<CompetitionState, ParseError>) {
        if value == 11 {
            Ok(CompetitionState::Disabled)
        } else if value == 10 {
            Ok(CompetitionState::Autonomous)
        } else if value == 8 {
            Ok(CompetitionState::OpControl)
        } else {
            Err(ParseError::InvalidId(value as u32))
        }
    }
}

impl vstd::std_specs::convert::TryFromSpecImpl<u8> for CompetitionState {
    open spec fn obeys_try_from_spec() -> bool {
        true
    }

    open spec fn try_from_spec(v: u8) -> Result<CompetitionState, ParseError> {
        match competition_state_of(v) {
            Some(s) => Ok(s),
            None => Err(ParseError::InvalidId(v as u32)),
        }
    }
}

impl From<CompetitionState> for u8 {
    fn from(val: CompetitionState) -> (id: u8) {
        match val {
            CompetitionState::Disabled => 11,
            CompetitionState::Autonomous => 10,
            CompetitionState::OpControl => 8,
        }
    }
}

impl vstd::std_specs::convert::FromSpecImpl<CompetitionState> for u8 {
    open spec fn obeys_from_spec() -> bool {
        true
    }

    open spec fn from_spec(v: CompetitionState) -> u8 {
        v.spec_id()
    }
}

/// A state written as its byte reads back as the same state, and every byte that names
/// a state is that state's byte.
pub proof fn lemma_competition_state_roundtrip(state: CompetitionState, id: u8)
    ensures
        competition_state_of(state.spec_id()) == Some(state),
        competition_state_of(id) matches Some(s) ==> s.spec_id() == id,
{
}

/// The request that switches the competition state: the state byte, then a 32-bit
/// little-endian value whose meaning is unknown.
pub fn set_competition_state_request(state: CompetitionState, unknown: u32) -> (p: Packet)
    ensures
        p.written() == request_prefix(0x2E, 5) + seq![state.spec_id()] + le_bytes(
            unknown as nat,
            4,
        ),
        p.blank_after(),
        p.spec_bytes().len() == p.written().len() + 2,
{
    let mut p = Packet::new(0x2E, 5);
    p.write_u8(u8::from(state));
    p.write_u32(unknown);
    p
}

} // verus!
