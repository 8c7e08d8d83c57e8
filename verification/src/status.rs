//! What the status line tells the user.
use vstd::prelude::*;

use crate::actions::ActionButton;
use crate::number::{decimal, to_decimal};

verus! {

/// What is told when toolchains were read from the file in which they are kept.
pub fn loaded_message(toolchains: usize) -> (r: String)
    ensures
        r@ == "Loaded "@ + decimal(toolchains as nat) + " toolchain(s) from config"@,
{
    let mut out = "Loaded ".to_owned();
    out.append(to_decimal(toolchains as u64).as_str());
    out.append(" toolchain(s) from config");
    out
}

/// What is told of the targets that a build directory offers at the start.
pub open spec fn targets_text(targets: nat) -> Seq<char> {
    if targets == 0 {
        "No build targets (run Configure first)"@
    } else {
        "Found "@ + decimal(targets) + " build target(s)"@
    }
}

/// What is told of the targets that a build directory offers at the start.
pub fn targets_message(targets: usize) -> (r: String)
    ensures
        r@ == targets_text(targets as nat),
{
    if targets == 0 {
        return "No build targets (run Configure first)".to_owned();
    }
    let mut out = "Found ".to_owned();
    out.append(to_decimal(targets as u64).as_str());
    out.append(" build target(s)");
    out
}

/// What is told when CMake cannot be started.
pub fn start_failed_message(error: &str) -> (r: String)
    ensures
        r@ == "Failed to start cmake: "@ + error@,
{
    "Failed to start cmake: ".to_owned().concat(error)
}

/// What is told when no toolchain is selected to configure with.
pub fn no_toolchain_message() -> (r: String)
    ensures
        r@ == "No toolchain selected"@,
{
    "No toolchain selected".to_owned()
}

/// What is told when an operation was stopped.
pub open spec fn stopped_text(button: ActionButton) -> Seq<char> {
    match button {
        ActionButton::Configure => "Configure stopped"@,
        ActionButton::Build => "Build stopped"@,
    }
}

/// What is told when an operation was stopped.
pub fn stopped_message(button: ActionButton) -> (r: String)
    ensures
        r@ == stopped_text(button),
{
    match button {
        ActionButton::Configure => "Configure stopped".to_owned(),
        ActionButton::Build => "Build stopped".to_owned(),
    }
}

/// What is told when a file of kits cannot be read or understood.
pub open spec fn kits_failed_text(path: Seq<char>, readable: bool, error: Seq<char>) -> Seq<char> {
    let head = if readable {
        "Failed to parse kits file '"@
    } else {
        "Failed to read kits file '"@
    };
    head + path + "': "@ + error
}

/// What is told when a file of kits cannot be read, or can be read and not understood.
pub fn kits_failed_message(path: &str, readable: bool, error: &str) -> (r: String)
    ensures
        r@ == kits_failed_text(path@, readable, error@),
{
    let mut out = if readable {
        "Failed to parse kits file '".to_owned()
    } else {
        "Failed to read kits file '".to_owned()
    };
    out.append(path);
    out.append("': ");
    out.append(error);
    out
}

} // verus!
