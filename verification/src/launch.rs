//! How a game is started: which program is run, with which argument.
//!
//! The library names the command; whoever calls it starts the process.

use crate::games::{emulator_of_tag, Emulator, Game};
use vstd::prelude::*;
use vstd::string::StringExecFns;

verus! {

/// A program to start, with its one argument.
pub struct LaunchCommand {
    /// The name of the executable.
    pub program: String,
    /// The path of the game file.
    pub argument: String,
}

/// The name of the executable of an emulator, on Windows or elsewhere.
pub open spec fn executable_name(emulator: Emulator, windows: bool) -> Seq<char> {
    match emulator {
        Emulator::Yuzu => if windows {
            "yuzu.exe"@
        } else {
            "yuzu"@
        },
        Emulator::Ryujinx => if windows {
            "Ryujinx.exe"@
        } else {
            "Ryujinx"@
        },
    }
}

/// The message for a process that could not be started.
pub open spec fn launch_failure_spec(os_error: Seq<char>) -> Seq<char> {
    "Failed to launch game: "@ + os_error
}

impl Emulator {
    /// The name of the executable, on Windows or elsewhere.
    pub fn executable(&self, windows: bool) -> (name: &'static str)
        ensures
            name@ == executable_name(*self, windows),
    {
        match self {
            Emulator::Yuzu => if windows {
                "yuzu.exe"
            } else {
                "yuzu"
            },
            Emulator::Ryujinx => if windows {
                "Ryujinx.exe"
            } else {
                "Ryujinx"
            },
        }
    }
}

/// The command that starts `game`: the executable of its emulator with the
/// path of the game as the only argument. A tag that names no emulator is
/// refused.
pub fn launch_game(game: &Game, windows: bool) -> (command: Result<LaunchCommand, String>)
    ensures
        match emulator_of_tag(game@.emulator) {
            Some(emulator) => command is Ok && command->Ok_0.program@ == executable_name(
                emulator,
                windows,
            ) && command->Ok_0.argument@ == game@.path,
            None => command is Err && command->Err_0@ == "Unknown emulator"@,
        },
{
    match Emulator::from_tag(game.emulator.as_str()) {
        Some(emulator) => Ok(
            LaunchCommand {
                program: String::from_str(emulator.executable(windows)),
                argument: game.path.clone(),
            },
        ),
        None => Err(String::from_str("Unknown emulator")),
    }
}

/// The message for a game whose process could not be started, from the
/// operating system's words.
pub fn launch_failure(os_error: &str) -> (message: String)
    ensures
        message@ == launch_failure_spec(os_error@),
{
    let mut message = String::from_str("Failed to launch game: ");
    message.append(os_error);
    message
}

} // verus!
