//! Running a command that can be cancelled: what to do next at every turn.
use vstd::prelude::*;

use crate::number::{decimal, to_decimal};
use crate::text::texts;

verus! {

/// How many milliseconds pass between two looks at a running process.
pub const POLL_MILLIS: u64 = 50;

/// How many milliseconds a process has to end after it was asked to.
pub const GRACE_MILLIS: u64 = 2000;

/// How a command ended.
#[derive(Clone, Copy, Debug, PartialEq, Eq, Structural)]
pub enum RunResult {
    Success,
    Failed,
    Cancelled,
}

/// What a look at a process shows.
#[derive(Clone, Copy, Debug, PartialEq, Eq, Structural)]
pub enum ChildPoll {
    /// It runs.
    Running,
    /// It has ended.
    Exited { success: bool },
    /// The look failed.
    Unknown,
}

/// What to do next with a running command.
#[derive(Clone, Copy, Debug, PartialEq, Eq, Structural)]
pub enum RunStep {
    /// Look again after `POLL_MILLIS`.
    Wait,
    /// End the process and everything it started; the command was cancelled.
    Terminate,
    /// The command ended like this.
    Finish { result: RunResult },
}

/// How a command ended that was cancelled or not, and whose process ended well or not.
pub open spec fn result_of(cancelled: bool, success: bool) -> RunResult {
    if cancelled {
        RunResult::Cancelled
    } else if success {
        RunResult::Success
    } else {
        RunResult::Failed
    }
}

/// How a command ended.
pub fn run_result(cancelled: bool, success: bool) -> (r: RunResult)
    ensures
        r == result_of(cancelled, success),
{
    if cancelled {
        RunResult::Cancelled
    } else if success {
        RunResult::Success
    } else {
        RunResult::Failed
    }
}

/// What to do next: a request to stop comes before what the process does, and a process that
/// cannot be looked at has failed.
pub open spec fn run_step_of(stop: bool, poll: ChildPoll) -> RunStep {
    if stop {
        RunStep::Terminate
    } else {
        match poll {
            ChildPoll::Running => RunStep::Wait,
            ChildPoll::Exited { success } => RunStep::Finish { result: result_of(false, success) },
            ChildPoll::Unknown => RunStep::Finish { result: result_of(false, false) },
        }
    }
}

/// What to do next with a running command. Where a stop was requested, `poll` is not looked
/// at.
pub fn run_step(stop: bool, poll: ChildPoll) -> (r: RunStep)
    ensures
        r == run_step_of(stop, poll),
{
    if stop {
        return RunStep::Terminate;
    }
    match poll {
        ChildPoll::Running => RunStep::Wait,
        ChildPoll::Exited { success } => RunStep::Finish { result: run_result(false, success) },
        ChildPoll::Unknown => RunStep::Finish { result: run_result(false, false) },
    }
}

/// A command ends as cancelled only where a stop was requested, and waits only while none
/// was and its process runs.
pub proof fn lemma_run_step(stop: bool, poll: ChildPoll)
    ensures
        run_step_of(stop, poll) == RunStep::Terminate <==> stop,
        run_step_of(stop, poll) == RunStep::Wait <==> !stop && poll == ChildPoll::Running,
        run_step_of(stop, poll) != (RunStep::Finish { result: RunResult::Cancelled }),
{
}

/// What to do next with a process that was asked to end.
#[derive(Clone, Copy, Debug, PartialEq, Eq, Structural)]
pub enum TerminateStep {
    /// Look again after `POLL_MILLIS`.
    Wait,
    /// It has ended.
    Done,
    /// End it by force.
    Kill,
}

/// What to do next with a process that was asked to end `waited_millis` ago: it is waited for
/// while it runs and has time left, and killed after that or where it cannot be looked at.
pub open spec fn terminate_step_of(poll: ChildPoll, waited_millis: u64) -> TerminateStep {
    match poll {
        ChildPoll::Exited { .. } => TerminateStep::Done,
        ChildPoll::Running => if waited_millis >= GRACE_MILLIS {
            TerminateStep::Kill
        } else {
            TerminateStep::Wait
        },
        ChildPoll::Unknown => TerminateStep::Kill,
    }
}

/// What to do next with a process that was asked to end `waited_millis` ago.
pub fn terminate_step(poll: ChildPoll, waited_millis: u64) -> (r: TerminateStep)
    ensures
        r == terminate_step_of(poll, waited_millis),
{
    match poll {
        ChildPoll::Exited { .. } => TerminateStep::Done,
        ChildPoll::Running => if waited_millis >= GRACE_MILLIS {
            TerminateStep::Kill
        } else {
            TerminateStep::Wait
        },
        ChildPoll::Unknown => TerminateStep::Kill,
    }
}

/// A process that was asked to end is waited for no longer than its time, and is taken as
/// ended only where it has.
pub proof fn lemma_terminate_step(poll: ChildPoll, waited_millis: u64)
    ensures
        waited_millis >= GRACE_MILLIS ==> terminate_step_of(poll, waited_millis)
            != TerminateStep::Wait,
        terminate_step_of(poll, waited_millis) == TerminateStep::Done <==> poll is Exited,
{
}

/// The program that asks a process and everything it started to end.
pub fn stop_program(windows: bool) -> (r: String)
    ensures
        r@ == if windows {
            "taskkill"@
        } else {
            "kill"@
        },
{
    if windows {
        "taskkill".to_owned()
    } else {
        "kill".to_owned()
    }
}

/// The arguments with which that program ends the process `pid`: on Windows it and its tree,
/// elsewhere its process group.
pub open spec fn stop_args_of(pid: u32, windows: bool) -> Seq<Seq<char>> {
    if windows {
        seq!["/PID"@, decimal(pid as nat), "/T"@, "/F"@]
    } else {
        seq!["-TERM"@, "-"@ + decimal(pid as nat)]
    }
}

/// The arguments with which that program ends the process `pid`.
pub fn stop_args(pid: u32, windows: bool) -> (r: Vec<String>)
    ensures
        texts(r@) == stop_args_of(pid, windows),
{
    let mut out: Vec<String> = Vec::new();
    let number = to_decimal(pid as u64);
    if windows {
        out.push("/PID".to_owned());
        out.push(number);
        out.push("/T".to_owned());
        out.push("/F".to_owned());
    } else {
        out.push("-TERM".to_owned());
        out.push("-".to_owned().concat(number.as_str()));
    }
    proof {
        assert(texts(out@) =~= stop_args_of(pid, windows));
    }
    out
}

} // verus!
