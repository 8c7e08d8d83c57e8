//! What the user can ask for, and the steps that each request takes.
use vstd::prelude::*;

verus! {

/// The requests of the command panel.
#[derive(Clone, Copy, Debug, PartialEq, Eq, Structural)]
pub enum Request {
    Configure,
    Build,
    DeleteAndConfigure,
    CleanAndBuild,
}

/// The steps that requests are made of.
#[derive(Clone, Copy, Debug, PartialEq, Eq, Structural)]
pub enum Step {
    /// Remove the build directory.
    Delete,
    /// Run CMake's configuration.
    Configure,
    /// Build the target that cleans.
    Clean,
    /// Build the selected target.
    Build,
}

/// The steps of a request, in their order. A build configures first where there is no build
/// directory.
pub open spec fn steps_of(request: Request, build_dir_exists: bool) -> Seq<Step> {
    match request {
        Request::Configure => seq![Step::Configure],
        Request::Build => if build_dir_exists {
            seq![Step::Build]
        } else {
            seq![Step::Configure, Step::Build]
        },
        Request::DeleteAndConfigure => seq![Step::Delete, Step::Configure],
        Request::CleanAndBuild => seq![Step::Clean, Step::Build],
    }
}

/// The steps of a request, in their order.
pub fn plan(request: Request, build_dir_exists: bool) -> (r: Vec<Step>)
    ensures
        r@ == steps_of(request, build_dir_exists),
{
    let mut out: Vec<Step> = Vec::new();
    match request {
        Request::Configure => {
            out.push(Step::Configure);
        },
        Request::Build => {
            if !build_dir_exists {
                out.push(Step::Configure);
            }
            out.push(Step::Build);
        },
        Request::DeleteAndConfigure => {
            out.push(Step::Delete);
            out.push(Step::Configure);
        },
        Request::CleanAndBuild => {
            out.push(Step::Clean);
            out.push(Step::Build);
        },
    }
    proof {
        assert(out@ =~= steps_of(request, build_dir_exists));
    }
    out
}

/// The buttons that start operations and stop them again.
#[derive(Clone, Copy, Debug, PartialEq, Eq, Structural)]
pub enum ActionButton {
    Configure,
    Build,
}

/// The button that stops a request.
pub open spec fn button_of(request: Request) -> ActionButton {
    match request {
        Request::Configure => ActionButton::Configure,
        Request::DeleteAndConfigure => ActionButton::Configure,
        Request::Build => ActionButton::Build,
        Request::CleanAndBuild => ActionButton::Build,
    }
}

/// The button that stops a request.
fn stop_button(request: Request) -> (r: ActionButton)
    ensures
        r == button_of(request),
{
    match request {
        Request::Configure => ActionButton::Configure,
        Request::DeleteAndConfigure => ActionButton::Configure,
        Request::Build => ActionButton::Build,
        Request::CleanAndBuild => ActionButton::Build,
    }
}

/// What comes of a request.
pub enum Start {
    /// Another operation runs; nothing is done.
    Busy,
    /// It would configure, and no toolchain is selected.
    NoToolchain,
    /// These steps are taken, and this button stops them.
    Begin { button: ActionButton, steps: Vec<Step> },
}

/// What comes of a request, with an operation running or not and a toolchain selected or not.
pub fn start(
    request: Request,
    running: bool,
    build_dir_exists: bool,
    toolchain_selected: bool,
) -> (r: Start)
    ensures
        match r {
            Start::Busy => running,
            Start::NoToolchain => !running && !toolchain_selected && steps_of(
                request,
                build_dir_exists,
            ).contains(Step::Configure),
            Start::Begin { button, steps } => {
                &&& !running
                &&& toolchain_selected || !steps_of(request, build_dir_exists).contains(
                    Step::Configure,
                )
                &&& button == button_of(request)
                &&& steps@ == steps_of(request, build_dir_exists)
            },
        },
{
    if running {
        return Start::Busy;
    }
    let steps = plan(request, build_dir_exists);
    let ghost s = steps@;
    let mut configures = false;
    let mut i: usize = 0;
    while i < steps.len()
        invariant
            i <= steps@.len(),
            steps@ == s,
            configures == s.take(i as int).contains(Step::Configure),
        decreases steps@.len() - i,
    {
        proof {
            let done = s.take(i as int);
            let now = s.take(i + 1);
            assert(now[i as int] == s[i as int]);
            if done.contains(Step::Configure) {
                let k = choose|k: int| 0 <= k < done.len() && done[k] == Step::Configure;
                assert(now[k] == Step::Configure);
            }
            if now.contains(Step::Configure) && s[i as int] != Step::Configure {
                let k = choose|k: int| 0 <= k < now.len() && now[k] == Step::Configure;
                assert(done[k] == Step::Configure);
            }
        }
        if steps[i] == Step::Configure {
            configures = true;
        }
        i = i + 1;
    }
    proof {
        assert(s.take(i as int) == s);
    }
    if configures && !toolchain_selected {
        Start::NoToolchain
    } else {
        Start::Begin { button: stop_button(request), steps }
    }
}

/// The step that follows after `done` steps, the last of which went well or not: the next one,
/// where all went well and one is left.
pub fn after_step(steps: &Vec<Step>, done: usize, ok: bool) -> (r: Option<Step>)
    ensures
        r == if ok && done < steps@.len() {
            Some(steps@[done as int])
        } else {
            None
        },
{
    if ok && done < steps.len() {
        Some(steps[done])
    } else {
        None
    }
}

/// What a press of such a button does.
#[derive(Clone, Copy, Debug, PartialEq, Eq, Structural)]
pub enum Press {
    Start { request: Request },
    Stop,
}

/// The caption of a button whose operation runs or not.
pub open spec fn caption_of(button: ActionButton, running: bool) -> Seq<char> {
    match button {
        ActionButton::Configure => if running {
            "Stop Configure"@
        } else {
            "Configure"@
        },
        ActionButton::Build => if running {
            "Stop Build"@
        } else {
            "Build"@
        },
    }
}

/// The caption of a button whose operation runs or not.
pub fn caption(button: ActionButton, running: bool) -> (r: String)
    ensures
        r@ == caption_of(button, running),
{
    match button {
        ActionButton::Configure => if running {
            "Stop Configure".to_owned()
        } else {
            "Configure".to_owned()
        },
        ActionButton::Build => if running {
            "Stop Build".to_owned()
        } else {
            "Build".to_owned()
        },
    }
}

/// What a press of a button does whose operation runs or not.
pub fn press(button: ActionButton, running: bool) -> (r: Press)
    ensures
        running ==> r == Press::Stop,
        !running ==> r == (Press::Start {
            request: match button {
                ActionButton::Configure => Request::Configure,
                ActionButton::Build => Request::Build,
            },
        }),
{
    if running {
        Press::Stop
    } else {
        match button {
            ActionButton::Configure => Press::Start { request: Request::Configure },
            ActionButton::Build => Press::Start { request: Request::Build },
        }
    }
}

/// What the keys without modifiers do.
#[derive(Clone, Copy, Debug, PartialEq, Eq, Structural)]
pub enum Shortcut {
    CommandPanel,
    ToolchainList,
    BuildTypeList,
    TargetList,
    CopyOutput,
    Settings,
    Quit,
    Stop,
}

/// What a key does.
pub open spec fn shortcut_of(key: char) -> Option<Shortcut> {
    if key == 'p' {
        Some(Shortcut::CommandPanel)
    } else if key == 'g' {
        Some(Shortcut::ToolchainList)
    } else if key == 'b' {
        Some(Shortcut::BuildTypeList)
    } else if key == 't' {
        Some(Shortcut::TargetList)
    } else if key == 'c' {
        Some(Shortcut::CopyOutput)
    } else if key == 's' {
        Some(Shortcut::Settings)
    } else if key == 'q' {
        Some(Shortcut::Quit)
    } else if key == 'i' {
        Some(Shortcut::Stop)
    } else {
        None
    }
}

/// What a key does.
pub fn shortcut(key: char) -> (r: Option<Shortcut>)
    ensures
        r == shortcut_of(key),
{
    if key == 'p' {
        Some(Shortcut::CommandPanel)
    } else if key == 'g' {
        Some(Shortcut::ToolchainList)
    } else if key == 'b' {
        Some(Shortcut::BuildTypeList)
    } else if key == 't' {
        Some(Shortcut::TargetList)
    } else if key == 'c' {
        Some(Shortcut::CopyOutput)
    } else if key == 's' {
        Some(Shortcut::Settings)
    } else if key == 'q' {
        Some(Shortcut::Quit)
    } else if key == 'i' {
        Some(Shortcut::Stop)
    } else {
        None
    }
}

} // verus!
