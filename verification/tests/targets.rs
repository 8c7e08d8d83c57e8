use cmake_tui_tool::cache::parse_cmake_cache;
use cmake_tui_tool::commands::build_args;
use cmake_tui_tool::targets::{
    extract_xml_attr, file_names, is_slnx, offered_targets, parse_cmake_target_help,
    preserved_selection, prioritize_targets, scan_targets_from_slnx, slnx_project_paths, targets_of_projects,
};

fn strings(list: &[&str]) -> Vec<String> {
    list.iter().map(|s| s.to_string()).collect()
}

#[test]
fn parse_target_help() {
    let output = "[1/1] All primary targets available:\n\
edit_cache: phony\n\
install: phony\n\
Mp4Parser-BC: phony\n\
ExtractVideoStream: phony\n\
ExtractVideoStream.exe: phony\n\
Mp4ParseLib/samples/edit_cache: phony\n\
build.ninja: RERUN_CMAKE\n\
clean: CLEAN\n\
help: HELP\n";
    let targets = parse_cmake_target_help(output);
    assert_eq!(
        targets,
        vec![
            "install".to_string(),
            "Mp4Parser-BC".to_string(),
            "ExtractVideoStream".to_string()
        ]
    );
}

#[test]
fn parse_makefiles_target_help() {
    let output = "The following are some of the valid targets for this Makefile:\n\
... all (the default if no target is provided)\n\
... clean\n\
... depend\n\
... edit_cache\n\
... install\n\
... install/local\n\
... install/strip\n\
... list_install_components\n\
... rebuild_cache\n\
... ExtractVideoStream\n\
... Mp4InfoDisplay\n\
... Mp4ParseLib\n\
... Mp4Parser-BC\n\
... ParseMp4Files\n\
... imgui\n\
... resources/app.obj\n\
... src/Mp4ParseData.obj\n";
    let targets = parse_cmake_target_help(output);
    assert_eq!(
        targets,
        vec![
            "all".to_string(),
            "install".to_string(),
            "ExtractVideoStream".to_string(),
            "Mp4InfoDisplay".to_string(),
            "Mp4ParseLib".to_string(),
            "Mp4Parser-BC".to_string(),
            "ParseMp4Files".to_string(),
            "imgui".to_string()
        ]
    );
}

#[test]
fn scan_targets_from_slnx_parses() {
    let content = "<?xml version=\"1.0\"?>\n<Solution>\n  <Project Path=\"ALL_BUILD.vcxproj\" Type=\"8bc9ceb8\"/>\n  <Project Path=\"INSTALL.vcxproj\" Type=\"8bc9ceb8\"/>\n  <Project Path=\"Mp4ParseLib/samples/ExtractVideoStream.vcxproj\" Type=\"8bc9ceb8\"/>\n  <Project Path=\"Mp4Parser-BC.vcxproj\" Type=\"8bc9ceb8\"/>\n  <Project Path=\"ZERO_CHECK.vcxproj\" Type=\"8bc9ceb8\"/>\n</Solution>\n";
    assert!(is_slnx("Test.slnx"));
    let targets = scan_targets_from_slnx(content);
    assert_eq!(
        targets,
        vec![
            "all".to_string(),
            "install".to_string(),
            "ExtractVideoStream".to_string(),
            "Mp4Parser-BC".to_string()
        ]
    );
}

#[test]
fn help_offers_each_target_once() {
    let output = "... app\r\n... app\n  lib: phony  \nlib: phony\n... a\\b\n... a.o\n... package\n";
    assert_eq!(parse_cmake_target_help(output), strings(&["app", "lib"]));
    assert!(parse_cmake_target_help("").is_empty());
    assert!(parse_cmake_target_help("nothing here\n").is_empty());
}

#[test]
fn xml_attributes() {
    let line: Vec<char> = "<Project Path=\"a b.vcxproj\" Type=\"x\"/>".chars().collect();
    assert_eq!(extract_xml_attr(&line, "Path").as_deref(), Some("a b.vcxproj"));
    assert_eq!(extract_xml_attr(&line, "Type").as_deref(), Some("x"));
    assert_eq!(extract_xml_attr(&line, "Id"), None);
    let open: Vec<char> = "<Project Path=\"a".chars().collect();
    assert_eq!(extract_xml_attr(&open, "Path"), None);
}

#[test]
fn solution_pieces() {
    let content = "<Project Path=\"x/..\"/>\n<Folder Path=\"no\"/>\n<Project Name=\"no\"/>\n<Project Path=\"sub/One.vcxproj\"/>\n<Project Path=\".vcxproj\"/>\n<Project Path=\"One.vcxproj\"/>\n";
    let paths = slnx_project_paths(content);
    assert_eq!(paths, strings(&["x/..", "sub/One.vcxproj", ".vcxproj", "One.vcxproj"]));
    let files = file_names(&paths);
    assert_eq!(
        files,
        vec![
            None,
            Some("One.vcxproj".to_string()),
            Some(".vcxproj".to_string()),
            Some("One.vcxproj".to_string())
        ]
    );
    assert_eq!(targets_of_projects(&files), strings(&["One"]));
    assert_eq!(scan_targets_from_slnx(content), strings(&["One"]));
}

#[test]
fn solutions_by_name() {
    assert!(is_slnx("a.b.SLNX"));
    assert!(is_slnx("..slnx"));
    assert!(!is_slnx(".slnx"));
    assert!(!is_slnx("slnx"));
    assert!(!is_slnx("a.slnx.txt"));
    assert!(!is_slnx(""));
}

#[test]
fn offered_order_keeps_targets() {
    let list = strings(&["app", "install", "lib", "all", "test"]);
    assert_eq!(
        prioritize_targets(&list),
        strings(&["all", "install", "app", "lib", "test"])
    );
    assert_eq!(prioritize_targets(&strings(&["x", "install"])), strings(&["install", "x"]));
    assert_eq!(prioritize_targets(&strings(&["x", "y"])), strings(&["x", "y"]));
    assert!(prioritize_targets(&Vec::new()).is_empty());
}

#[test]
fn targets_come_from_the_source_of_the_generator() {
    let solution = "<Project Path=\"App.vcxproj\"/>\n<Project Path=\"ALL_BUILD.vcxproj\"/>\n";
    let help = "... lib\n... install\n";
    let studio = parse_cmake_cache("CMAKE_GENERATOR:I=Visual Studio 17 2022\n");
    let ninja = parse_cmake_cache("CMAKE_GENERATOR:I=Ninja\n");
    assert_eq!(offered_targets(&studio, solution, help), strings(&["all", "App"]));
    assert_eq!(offered_targets(&ninja, solution, help), strings(&["install", "lib"]));
    assert_eq!(offered_targets(&parse_cmake_cache(""), solution, help), strings(&["install", "lib"]));
    assert!(offered_targets(&studio, "", help).is_empty());
}

#[test]
fn selection_is_preserved() {
    let list = strings(&["all", "app", "app"]);
    assert_eq!(preserved_selection(&list, "app"), Some(1));
    assert_eq!(preserved_selection(&list, "gone"), None);
}

#[test]
fn solution_targets_build_under_project_names() {
    let files = vec![
        Some("ALL_BUILD.vcxproj".to_string()),
        Some("INSTALL.vcxproj".to_string()),
        Some("Tool.vcxproj".to_string()),
    ];
    let names: Vec<String> = targets_of_projects(&files)
        .iter()
        .map(|t| build_args("b", t, "debug", true)[3].clone())
        .collect();
    assert_eq!(names, strings(&["ALL_BUILD", "INSTALL", "Tool"]));
}
