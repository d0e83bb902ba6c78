//! The command plugins: their names, and what the competition commands do to a brain.
use vstd::prelude::*;
use crate::brain::competition::CompetitionState;
use crate::text::str_eq;

verus! {

/// The plugin that simulates a competition.
pub struct CompetitionPlugin {}

impl CompetitionPlugin {
    /// The name of the command the plugin adds.
    pub fn get_name(&self) -> (name: &'static str)
        ensures
            name@ == "competition"@,
    {
        "competition"
    }
}

/// The plugin that manages files and settings on a brain.
pub struct ManagePlugin {}

impl ManagePlugin {
    pub fn default() -> (p: ManagePlugin)
        ensures
            (p == ManagePlugin {}),
    {
        ManagePlugin {}
    }

    /// The name of the command the plugin adds.
    pub fn get_name(&self) -> (name: &'static str)
        ensures
            name@ == "manage"@,
    {
        "manage"
    }
}

/// The competition commands.
#[derive(Copy, Clone, Debug, PartialEq, Eq, Structural)]
pub enum CompetitionCommand {
    Start,
    Autonomous,
    OpControl,
    Disable,
}

/// The command a subcommand name stands for: "start", "autonomous", "opcontrol" or
/// "disable".
pub open spec fn competition_command_spec(name: Seq<char>) -> Option<CompetitionCommand> {
    if name == "start"@ {
        Some(CompetitionCommand::Start)
    } else if name == "autonomous"@ {
        Some(CompetitionCommand::Autonomous)
    } else if name == "opcontrol"@ {
        Some(CompetitionCommand::OpControl)
    } else if name == "disable"@ {
        Some(CompetitionCommand::Disable)
    } else {
        None
    }
}

impl CompetitionCommand {
    /// The command a subcommand name stands for; `None` for any other name.
    pub fn from_name(name: &str) -> (c: Option<CompetitionCommand>)
        ensures
            c == competition_command_spec(name@),
    {
        if str_eq(name, "start") {
            Some(CompetitionCommand::Start)
        } else if str_eq(name, "autonomous") {
            Some(CompetitionCommand::Autonomous)
        } else if str_eq(name, "opcontrol") {
            Some(CompetitionCommand::OpControl)
        } else if str_eq(name, "disable") {
            Some(CompetitionCommand::Disable)
        } else {
            None
        }
    }

    pub open spec fn spec_state(self) -> Option<CompetitionState> {
        match self {
            CompetitionCommand::Start => None,
            CompetitionCommand::Autonomous => Some(CompetitionState::Autonomous),
            CompetitionCommand::OpControl => Some(CompetitionState::OpControl),
            CompetitionCommand::Disable => Some(CompetitionState::Disabled),
        }
    }

    /// The state the command puts the brain in; starting only connects.
    pub fn state(&self) -> (s: Option<CompetitionState>)
        ensures
            s == self.spec_state(),
    {
        match self {
            CompetitionCommand::Start => None,
            CompetitionCommand::Autonomous => Some(CompetitionState::Autonomous),
            CompetitionCommand::OpControl => Some(CompetitionState::OpControl),
            CompetitionCommand::Disable => Some(CompetitionState::Disabled),
        }
    }

    /// Each command puts the brain in the state it is named after, sent as that state's
    /// byte: "autonomous" in autonomous (10), "opcontrol" in driver control (8) and
    /// "disable" disabled (11); "start" sets no state.
    pub proof fn lemma_command_names_its_state(name: Seq<char>)
        ensures
            competition_command_spec(name) matches Some(c) ==> {
                let st = c.spec_state();
                &&& (st == Some(CompetitionState::Autonomous)) == (name == "autonomous"@)
                &&& (st == Some(CompetitionState::OpControl)) == (name == "opcontrol"@)
                &&& (st == Some(CompetitionState::Disabled)) == (name == "disable"@)
                &&& (st is None) == (name == "start"@)
                &&& st matches Some(s) ==> s.spec_id() == (if name == "autonomous"@ {
                    10u8
                } else if name == "opcontrol"@ {
                    8u8
                } else {
                    11u8
                })
            },
    {
        reveal_strlit("start");
        reveal_strlit("autonomous");
        reveal_strlit("opcontrol");
        reveal_strlit("disable");
        assert("start"@[0] != "autonomous"@[0] && "start"@[0] != "opcontrol"@[0]);
        assert("start"@[0] != "disable"@[0] && "autonomous"@[0] != "opcontrol"@[0]);
        assert("autonomous"@[0] != "disable"@[0] && "opcontrol"@[0] != "disable"@[0]);
    }

    /// How long the command keeps the state, in milliseconds: the length given for a
    /// period, nothing otherwise.
    pub fn hold_millis(&self, length: u64) -> (ms: u64)
        ensures
            ms == match *self {
                CompetitionCommand::Autonomous | CompetitionCommand::OpControl => length,
                _ => 0,
            },
    {
        match self {
            CompetitionCommand::Autonomous | CompetitionCommand::OpControl => length,
            _ => 0,
        }
    }
}

} // verus!
