//! Laws on requests and the commands that run for them.
use vstd::prelude::*;

use crate::actions::{
    button_of, caption_of, shortcut_of, steps_of, ActionButton, Request, Shortcut, Step,
};
use crate::number::{lemma_decimal_value, value_of};
use crate::runtime::{
    result_of, run_step_of, stop_args_of, terminate_step_of, ChildPoll, RunResult, RunStep,
    TerminateStep,
};
use crate::status::{kits_failed_text, stopped_text, targets_text};

verus! {

/// What each request comes to: the build directory is removed only where that was asked for, a
/// build configures first only where there is no build directory, and a clean build never does.
pub proof fn law_steps(request: Request, build_dir_exists: bool)
    ensures
        steps_of(request, build_dir_exists).contains(Step::Delete) <==> request
            == Request::DeleteAndConfigure,
        steps_of(request, build_dir_exists).contains(Step::Clean) <==> request
            == Request::CleanAndBuild,
        steps_of(request, build_dir_exists).contains(Step::Build) <==> request == Request::Build
            || request == Request::CleanAndBuild,
        steps_of(request, build_dir_exists).contains(Step::Configure) <==> request
            == Request::Configure || request == Request::DeleteAndConfigure || request
            == Request::Build && !build_dir_exists,
        // no step is taken twice, and they come in the order of removing, configuring, cleaning
        // and building
        forall|i: int, j: int|
            0 <= i < j < steps_of(request, build_dir_exists).len() ==> {
                let a = #[trigger] steps_of(request, build_dir_exists)[i];
                let b = #[trigger] steps_of(request, build_dir_exists)[j];
                &&& a != b
                &&& a != Step::Build
                &&& b != Step::Delete
                &&& a == Step::Clean ==> b == Step::Build
                &&& a == Step::Configure ==> b != Step::Delete
            },
{
    let s = steps_of(request, build_dir_exists);
    match request {
        Request::Configure => {
            assert(s[0] == Step::Configure);
        },
        Request::Build => {
            assert(s[s.len() - 1] == Step::Build);
            if !build_dir_exists {
                assert(s[0] == Step::Configure);
            }
        },
        Request::DeleteAndConfigure => {
            assert(s[0] == Step::Delete && s[1] == Step::Configure);
        },
        Request::CleanAndBuild => {
            assert(s[0] == Step::Clean && s[1] == Step::Build);
        },
    }
}

/// The button for builds stops exactly the requests that build.
pub proof fn law_stop_button(request: Request, build_dir_exists: bool)
    ensures
        button_of(request) == ActionButton::Build <==> steps_of(request, build_dir_exists).contains(
            Step::Build,
        ),
{
    law_steps(request, build_dir_exists);
}

/// A button says what it does: its name while nothing runs, and that it stops it while it does.
pub proof fn law_captions()
    ensures
        caption_of(ActionButton::Configure, false) == "Configure"@,
        caption_of(ActionButton::Build, false) == "Build"@,
        forall|b: ActionButton| #[trigger]
            caption_of(b, true) == "Stop "@ + caption_of(b, false),
{
    reveal_strlit("Stop ");
    reveal_strlit("Configure");
    reveal_strlit("Build");
    reveal_strlit("Stop Configure");
    reveal_strlit("Stop Build");
    assert("Stop "@ + "Configure"@ =~= "Stop Configure"@);
    assert("Stop "@ + "Build"@ =~= "Stop Build"@);
}

/// Eight keys do something, each another thing, and every other key does nothing.
pub proof fn law_shortcuts(key: char, other: char)
    ensures
        shortcut_of(key) is Some <==> seq!['p', 'g', 'b', 't', 'c', 's', 'q', 'i'].contains(key),
        shortcut_of(key) is Some && shortcut_of(key) == shortcut_of(other) ==> key == other,
        shortcut_of(key) == Some(Shortcut::CommandPanel) <==> key == 'p',
        shortcut_of(key) == Some(Shortcut::ToolchainList) <==> key == 'g',
        shortcut_of(key) == Some(Shortcut::BuildTypeList) <==> key == 'b',
        shortcut_of(key) == Some(Shortcut::TargetList) <==> key == 't',
        shortcut_of(key) == Some(Shortcut::CopyOutput) <==> key == 'c',
        shortcut_of(key) == Some(Shortcut::Settings) <==> key == 's',
        shortcut_of(key) == Some(Shortcut::Quit) <==> key == 'q',
        shortcut_of(key) == Some(Shortcut::Stop) <==> key == 'i',
{
    let keys = seq!['p', 'g', 'b', 't', 'c', 's', 'q', 'i'];
    if shortcut_of(key) is Some {
        assert(keys[0] == key || keys[1] == key || keys[2] == key || keys[3] == key || keys[4]
            == key || keys[5] == key || keys[6] == key || keys[7] == key);
    }
}

/// A command succeeds exactly where its process ended well before anyone asked to stop it, and
/// fails where it ended otherwise or cannot be looked at.
pub proof fn law_run(stop: bool, poll: ChildPoll)
    ensures
        run_step_of(stop, poll) == (RunStep::Finish { result: RunResult::Success }) <==> !stop
            && poll == (ChildPoll::Exited { success: true }),
        run_step_of(stop, poll) == (RunStep::Finish { result: RunResult::Failed }) <==> !stop && (
        poll == (ChildPoll::Exited { success: false }) || poll == ChildPoll::Unknown),
        run_step_of(stop, poll) == RunStep::Wait <==> !stop && poll == ChildPoll::Running,
        run_step_of(stop, poll) == RunStep::Terminate <==> stop,
{
}

/// What a cancelled command's process did does not matter, and another command is as good as its
/// process.
pub proof fn law_result(cancelled: bool, success: bool)
    ensures
        result_of(cancelled, success) == RunResult::Cancelled <==> cancelled,
        result_of(cancelled, success) == RunResult::Success <==> !cancelled && success,
{
}

/// A process that was asked to end has two seconds for it, and is then ended by force; so is one
/// that cannot be looked at.
pub proof fn law_terminate(poll: ChildPoll, waited_millis: u64)
    ensures
        terminate_step_of(poll, waited_millis) == TerminateStep::Done <==> poll is Exited,
        terminate_step_of(poll, waited_millis) == TerminateStep::Wait <==> poll
            == ChildPoll::Running && waited_millis < 2000,
        terminate_step_of(poll, waited_millis) == TerminateStep::Kill <==> poll
            == ChildPoll::Unknown || poll == ChildPoll::Running && waited_millis >= 2000,
{
}

/// The program that ends processes is given the number of the process: on Windows as it is, with
/// the tree and by force, and elsewhere behind a dash, which is its group.
pub proof fn law_stop_args(pid: u32)
    ensures
        exists|number: Seq<char>|
            {
                &&& #[trigger] value_of(number) == pid
                &&& stop_args_of(pid, true) == seq!["/PID"@, number, "/T"@, "/F"@]
                &&& stop_args_of(pid, false) == seq!["-TERM"@, "-"@ + number]
            },
{
    lemma_decimal_value(pid as nat);
    let number = crate::number::decimal(pid as nat);
    assert(value_of(number) == pid);
}

/// The user is told how many targets there are, or that there are none yet.
pub proof fn law_targets_told(targets: nat)
    ensures
        targets == 0 ==> targets_text(targets) == "No build targets (run Configure first)"@,
        targets > 0 ==> exists|number: Seq<char>|
            {
                &&& #[trigger] value_of(number) == targets
                &&& targets_text(targets) == "Found "@ + number + " build target(s)"@
            },
{
    lemma_decimal_value(targets);
    assert(value_of(crate::number::decimal(targets)) == targets);
}

/// What was stopped is told by the name that its button has.
pub proof fn law_stopped_told(button: ActionButton)
    ensures
        stopped_text(button) == caption_of(button, false) + " stopped"@,
{
    reveal_strlit(" stopped");
    reveal_strlit("Configure");
    reveal_strlit("Build");
    reveal_strlit("Configure stopped");
    reveal_strlit("Build stopped");
    assert(stopped_text(button) =~= caption_of(button, false) + " stopped"@);
}

/// A file of kits that fails is named with what went wrong, reading it or understanding it.
pub proof fn law_kits_failure_told(path: Seq<char>, error: Seq<char>)
    ensures
        kits_failed_text(path, false, error) == "Failed to read kits file '"@ + path + "': "@
            + error,
        kits_failed_text(path, true, error) == "Failed to parse kits file '"@ + path + "': "@
            + error,
{
}

} // verus!
