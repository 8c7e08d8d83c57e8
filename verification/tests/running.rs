use cmake_tui_tool::actions::{
    after_step, caption, plan, press, shortcut, start, ActionButton, Press, Request, Shortcut,
    Start, Step,
};
use cmake_tui_tool::commands::{
    build_args, build_header, building_message, built_message, configure_args,
    configure_args_with_stem, configure_header, configured_message, configuring_message,
    format_command, target_label,
};
use cmake_tui_tool::environment::{
    clean_cmake_env, env_diagnostics, program_names, vs_env_vars, which, ProgramPath,
};
use cmake_tui_tool::output::{
    append_line, clean_line, clipboard_sequence, copy_message, osc52_sequence, refresh_due,
    MAX_LINES,
};
use cmake_tui_tool::runtime::{
    run_result, run_step, stop_args, stop_program, terminate_step, ChildPoll, RunResult, RunStep,
    TerminateStep,
};
use cmake_tui_tool::status::{
    kits_failed_message, loaded_message, no_toolchain_message, start_failed_message,
    stopped_message, targets_message,
};
use cmake_tui_tool::toolchain::Toolchain;

fn strings(list: &[&str]) -> Vec<String> {
    list.iter().map(|s| s.to_string()).collect()
}

fn gcc() -> Toolchain {
    Toolchain {
        id: "gcc".to_string(),
        name: "GCC".to_string(),
        version: "13.2.0".to_string(),
        path: "/usr/bin/gcc".to_string(),
        cxx: None,
        generator: None,
        arch: None,
        triple: None,
        toolset: None,
    }
}

#[test]
fn steps_of_requests() {
    assert_eq!(plan(Request::Configure, false), vec![Step::Configure]);
    assert_eq!(plan(Request::Build, true), vec![Step::Build]);
    assert_eq!(plan(Request::Build, false), vec![Step::Configure, Step::Build]);
    assert_eq!(plan(Request::DeleteAndConfigure, true), vec![Step::Delete, Step::Configure]);
    assert_eq!(plan(Request::CleanAndBuild, true), vec![Step::Clean, Step::Build]);
}

#[test]
fn starting_requests() {
    match start(Request::Build, false, false, true) {
        Start::Begin { button, steps } => {
            assert_eq!(button, ActionButton::Build);
            assert_eq!(steps, vec![Step::Configure, Step::Build]);
        }
        _ => panic!("not begun"),
    }
    match start(Request::DeleteAndConfigure, false, true, true) {
        Start::Begin { button, steps } => {
            assert_eq!(button, ActionButton::Configure);
            assert_eq!(steps.len(), 2);
        }
        _ => panic!("not begun"),
    }
    assert!(matches!(start(Request::Build, true, true, true), Start::Busy));
    assert!(matches!(start(Request::Build, false, false, false), Start::NoToolchain));
    assert!(matches!(start(Request::Configure, false, true, false), Start::NoToolchain));
    assert!(matches!(start(Request::Build, false, true, false), Start::Begin { .. }));
    assert!(matches!(start(Request::CleanAndBuild, false, false, false), Start::Begin { .. }));
}

#[test]
fn steps_follow_while_all_goes_well() {
    let steps = plan(Request::DeleteAndConfigure, true);
    assert_eq!(after_step(&steps, 0, true), Some(Step::Delete));
    assert_eq!(after_step(&steps, 1, true), Some(Step::Configure));
    assert_eq!(after_step(&steps, 1, false), None);
    assert_eq!(after_step(&steps, 2, true), None);
}

#[test]
fn buttons_stop_what_runs() {
    assert_eq!(caption(ActionButton::Configure, false), "Configure");
    assert_eq!(caption(ActionButton::Configure, true), "Stop Configure");
    assert_eq!(caption(ActionButton::Build, false), "Build");
    assert_eq!(caption(ActionButton::Build, true), "Stop Build");
    assert_eq!(press(ActionButton::Build, true), Press::Stop);
    assert_eq!(press(ActionButton::Build, false), Press::Start { request: Request::Build });
    assert_eq!(press(ActionButton::Configure, false), Press::Start { request: Request::Configure });
}

#[test]
fn keys() {
    assert_eq!(shortcut('p'), Some(Shortcut::CommandPanel));
    assert_eq!(shortcut('g'), Some(Shortcut::ToolchainList));
    assert_eq!(shortcut('b'), Some(Shortcut::BuildTypeList));
    assert_eq!(shortcut('t'), Some(Shortcut::TargetList));
    assert_eq!(shortcut('c'), Some(Shortcut::CopyOutput));
    assert_eq!(shortcut('s'), Some(Shortcut::Settings));
    assert_eq!(shortcut('q'), Some(Shortcut::Quit));
    assert_eq!(shortcut('i'), Some(Shortcut::Stop));
    assert_eq!(shortcut('x'), None);
}

#[test]
fn command_lines() {
    assert_eq!(format_command(&strings(&["-S", "a b", "", "c"])), "cmake -S \"a b\"  c");
    assert_eq!(format_command(&Vec::new()), "cmake");
    assert_eq!(configure_header("d", &strings(&["-x"])), "d\n$ cmake -x");
}

#[test]
fn configuring() {
    let mut t = gcc();
    assert_eq!(
        configure_args("/p", "/p/build", "debug", &t),
        strings(&[
            "-S",
            "/p",
            "-B",
            "/p/build",
            "-DCMAKE_BUILD_TYPE=debug",
            "-DCMAKE_EXPORT_COMPILE_COMMANDS:BOOL=TRUE",
            "-DCMAKE_C_COMPILER=/usr/bin/gcc",
            "-DCMAKE_CXX_COMPILER=g++",
        ])
    );
    let last = configure_args_with_stem("p", "b", "debug", &t, &None);
    assert_eq!(last[7], "-DCMAKE_CXX_COMPILER=clang++");
    t.generator = Some("Visual Studio 17 2022".to_string());
    assert_eq!(
        configure_args("p", "b", "debug", &t),
        strings(&[
            "-S",
            "p",
            "-B",
            "b",
            "-DCMAKE_EXPORT_COMPILE_COMMANDS:BOOL=TRUE",
            "-G",
            "Visual Studio 17 2022",
        ])
    );
    assert_eq!(
        configuring_message(&t, "debug"),
        "Configuring: toolchain=GCC (13.2.0) build_type=debug"
    );
    assert_eq!(configured_message(Some(3)), "Configure succeeded: 3 target(s)");
    assert_eq!(configured_message(None), "Configure failed");
}

#[test]
fn building() {
    assert_eq!(build_args("b", "", "debug", false), strings(&["--build", "b"]));
    assert_eq!(build_args("b", "all", "debug", false), strings(&["--build", "b", "--target", "all"]));
    assert_eq!(
        build_args("b", "all", "debug", true),
        strings(&["--build", "b", "--target", "ALL_BUILD", "--config", "debug"])
    );
    assert_eq!(build_args("b", "install", "x", true)[3], "INSTALL");
    assert_eq!(build_args("b", "", "x", true), strings(&["--build", "b", "--config", "x"]));
    assert_eq!(target_label(""), "all");
    assert_eq!(target_label("app"), "app");
    assert_eq!(build_header("/p/build"), "$ cmake --build /p/build");
    assert_eq!(building_message(""), "Building 'all'...");
    assert_eq!(built_message("app", true), "Build succeeded: app");
    assert_eq!(built_message("", false), "Build failed: all");
}

#[test]
fn environments_are_cleaned() {
    let pair = |a: &str, b: &str| (a.to_string(), b.to_string());
    let vars = vec![
        pair("LANG", "1"),
        pair("Lang", "2"),
        pair("INCLUDE", "3"),
        pair("include", "4"),
        pair("lib", "5"),
        pair("LIB", "6"),
        pair("ÉTÉ", "7"),
        pair("été", "8"),
    ];
    assert_eq!(
        clean_cmake_env(&vars),
        vec![pair("LANG", "1"), pair("lib", "5"), pair("ÉTÉ", "7")]
    );
    assert_eq!(clean_cmake_env(&clean_cmake_env(&vars)), clean_cmake_env(&vars));
    assert_eq!(vs_env_vars().len(), 23);
    assert_eq!(vs_env_vars()[0], "CMAKE_GENERATOR");
    assert_eq!(vs_env_vars()[22], "_LINK_");
}

#[test]
fn programs() {
    assert_eq!(program_names("cmake"), strings(&["cmake", "cmake.exe"]));
    let at = |p: &str, f: bool| ProgramPath { path: p.to_string(), is_file: f };
    assert_eq!(which(&vec![at("a", false), at("b", true), at("c", true)]), Some("b".to_string()));
    assert_eq!(which(&vec![at("a", false)]), None);
}

#[test]
fn diagnostics() {
    assert_eq!(env_diagnostics(None, &Vec::new()), "cmake: NOT FOUND");
    let long = "x".repeat(121);
    let exact = "y".repeat(120);
    let vars = vec![
        ("LIB".to_string(), Some(long)),
        ("CL".to_string(), None),
        ("INCLUDE".to_string(), Some(exact.clone())),
    ];
    assert_eq!(
        env_diagnostics(Some("/usr/bin/cmake".to_string()), &vars),
        format!("cmake: /usr/bin/cmake\nenv LIB={}...\nenv INCLUDE={}", "x".repeat(120), exact)
    );
    let wide = "é".repeat(61);
    let shown = env_diagnostics(None, &vec![("V".to_string(), Some(wide))]);
    assert_eq!(shown, format!("cmake: NOT FOUND\nenv V={}...", "é".repeat(60)));
}

#[test]
fn kept_output() {
    let mut out = String::new();
    append_line(&mut out, "a");
    append_line(&mut out, "b\nc");
    assert_eq!(out, "a\nb\nc\n");
    let mut many = String::new();
    for i in 0..MAX_LINES + 5 {
        append_line(&mut many, &i.to_string());
    }
    assert_eq!(many.matches('\n').count(), MAX_LINES);
    assert!(many.starts_with("5\n6\n"));
    assert!(many.ends_with("\n204\n"));
}

#[test]
fn lines_of_processes() {
    assert_eq!(clean_line(b"abc\r\n"), "abc");
    assert_eq!(clean_line(b"abc"), "abc");
    assert_eq!(clean_line(b"\xfe\n\r\n"), "\u{fffd}");
    assert!(refresh_due(100));
    assert!(!refresh_due(99));
}

#[test]
fn copying() {
    assert_eq!(clipboard_sequence("hello"), "\x1b]52;c;aGVsbG8=\x1b\\");
    assert_eq!(clipboard_sequence(""), "\x1b]52;c;\x1b\\");
    for (text, encoded) in [
        ("f", "Zg=="),
        ("fo", "Zm8="),
        ("foo", "Zm9v"),
        ("foob", "Zm9vYg=="),
        ("fooba", "Zm9vYmE="),
        ("foobar", "Zm9vYmFy"),
        (">>>", "Pj4+"),
        ("???", "Pz8/"),
        ("é", "w6k="),
    ] {
        assert_eq!(clipboard_sequence(text), osc52_sequence(encoded));
    }
    assert_eq!(osc52_sequence("QQ=="), "\x1b]52;c;QQ==\x1b\\");
    assert_eq!(copy_message(0, true), "Nothing to copy");
    assert_eq!(copy_message(7, true), "Copied 7 bytes to clipboard");
    assert_eq!(copy_message(7, false), "Failed to copy to clipboard");
}

#[test]
fn running_commands() {
    assert_eq!(run_step(true, ChildPoll::Running), RunStep::Terminate);
    assert_eq!(run_step(true, ChildPoll::Exited { success: true }), RunStep::Terminate);
    assert_eq!(run_step(false, ChildPoll::Running), RunStep::Wait);
    assert_eq!(
        run_step(false, ChildPoll::Exited { success: true }),
        RunStep::Finish { result: RunResult::Success }
    );
    assert_eq!(
        run_step(false, ChildPoll::Exited { success: false }),
        RunStep::Finish { result: RunResult::Failed }
    );
    assert_eq!(
        run_step(false, ChildPoll::Unknown),
        RunStep::Finish { result: RunResult::Failed }
    );
    assert_eq!(run_result(true, true), RunResult::Cancelled);
    assert_eq!(run_result(false, false), RunResult::Failed);
}

#[test]
fn ending_processes() {
    assert_eq!(terminate_step(ChildPoll::Running, 1999), TerminateStep::Wait);
    assert_eq!(terminate_step(ChildPoll::Running, 2000), TerminateStep::Kill);
    assert_eq!(terminate_step(ChildPoll::Exited { success: false }, 5000), TerminateStep::Done);
    assert_eq!(terminate_step(ChildPoll::Unknown, 0), TerminateStep::Kill);
    assert_eq!(stop_program(true), "taskkill");
    assert_eq!(stop_program(false), "kill");
    assert_eq!(stop_args(42, true), strings(&["/PID", "42", "/T", "/F"]));
    assert_eq!(stop_args(42, false), strings(&["-TERM", "-42"]));
}

#[test]
fn status_lines() {
    assert_eq!(loaded_message(4), "Loaded 4 toolchain(s) from config");
    assert_eq!(targets_message(0), "No build targets (run Configure first)");
    assert_eq!(targets_message(2), "Found 2 build target(s)");
    assert_eq!(start_failed_message("no such file"), "Failed to start cmake: no such file");
    assert_eq!(no_toolchain_message(), "No toolchain selected");
    assert_eq!(stopped_message(ActionButton::Configure), "Configure stopped");
    assert_eq!(stopped_message(ActionButton::Build), "Build stopped");
    assert_eq!(kits_failed_message("k", false, "e"), "Failed to read kits file 'k': e");
    assert_eq!(kits_failed_message("k", true, "e"), "Failed to parse kits file 'k': e");
}
