use cmake_tui_tool::probe::{
    latest_version, mingw_roots, probe_llvm, probe_mingw, probe_msvc, CompilerFile, LlvmTools,
    MsvcHost, MsvcTarget, MsvcTools, MsvcVersion,
};
use cmake_tui_tool::scan::{
    dedup_toolchains, scan_done_message, scan_stages, scan_toolchains, stage_message, HostView,
    ScanStage,
};
use cmake_tui_tool::search_path::{
    dir_is_searched, lower_dir_is_searched, lower_path_may_be_mingw, may_be_mingw, probe_path,
    PathDir, PathFile,
};
use cmake_tui_tool::toolchain::Toolchain;
use cmake_tui_tool::vendor::Vendor;

fn some(s: &str) -> Option<String> {
    Some(s.to_string())
}

fn compiler(path: &str, exists: bool, output: Option<&str>, cxx: Option<&str>) -> CompilerFile {
    CompilerFile {
        path: path.to_string(),
        exists,
        output: output.map(|s| s.to_string()),
        cxx: cxx.map(|s| s.to_string()),
    }
}

fn path_file(path: &str, name: &str, output: Option<&str>) -> PathFile {
    PathFile {
        path: path.to_string(),
        name: Some(name.to_string()),
        is_file: true,
        output: output.map(|s| s.to_string()),
        sibling: None,
        has_make: false,
    }
}

fn target(name: &str, is_dir: bool, has_cl: bool) -> MsvcTarget {
    MsvcTarget {
        name: name.to_string(),
        is_dir,
        has_cl,
        cl_path: format!("cl/{}", name),
    }
}

fn version(name: &str, is_dir: bool) -> MsvcVersion {
    MsvcVersion { name: name.to_string(), is_dir, hosts: None }
}

fn paths(list: &[Toolchain]) -> Vec<&str> {
    list.iter().map(|t| t.path.as_str()).collect()
}

#[test]
fn mingw_at_its_usual_places() {
    assert_eq!(mingw_roots()[0], "D:\\mingw64");
    assert_eq!(mingw_roots().len(), 5);
    let files = vec![
        compiler("a", false, Some("gcc 1.2.3"), None),
        compiler("b", true, None, None),
        compiler("c", true, Some("gcc"), None),
        compiler("d", true, Some("gcc 13.1.0"), Some("g++")),
    ];
    let found = probe_mingw(&files);
    assert_eq!(paths(&found), vec!["d"]);
    assert_eq!(found[0].id, "gcc");
    assert_eq!(found[0].name, "GCC");
    assert_eq!(found[0].version, "13.1.0");
    assert_eq!(found[0].cxx, some("g++"));
    assert_eq!(found[0].generator, some("MinGW Makefiles"));
    assert_eq!(found[0].arch, None);
}

#[test]
fn clang_inside_visual_studio() {
    let tools = vec![LlvmTools {
        generator: some("Visual Studio 17 2022"),
        clang: compiler("c.exe", true, Some("clang version 17.0.3"), Some("c++.exe")),
        clang_cl: compiler("cl.exe", true, Some("clang version 17.0.3"), None),
    }];
    let found = probe_llvm(&tools);
    assert_eq!(found.len(), 2);
    assert_eq!(found[0].id, "clang");
    assert_eq!(found[0].generator, some("MinGW Makefiles"));
    assert_eq!(found[0].cxx, some("c++.exe"));
    assert_eq!(found[1].id, "clang-cl");
    assert_eq!(found[1].name, "Clang (MSVC CLI)");
    assert_eq!(found[1].generator, some("Visual Studio 17 2022"));
    assert_eq!(found[1].cxx, some("cl.exe"));
    assert_eq!(found[1].arch, some("x64"));
    assert_eq!(found[1].toolset, some("ClangCL"));
}

#[test]
fn latest_version_by_numbers() {
    let list = vec![
        version("14.9.1", true),
        version("14.38.2", true),
        version("v99", true),
        version("15.0", false),
        version("14.38.02", true),
        version("14.4", true),
    ];
    assert_eq!(latest_version(&list), Some(4));
    assert_eq!(latest_version(&vec![version("x", true)]), None);
    assert_eq!(latest_version(&Vec::new()), None);
}

#[test]
fn msvc_compilers_of_the_latest_version() {
    let mut latest = version("14.38.1", true);
    latest.hosts = Some(vec![
        MsvcHost {
            name: "Hostx64".to_string(),
            is_dir: true,
            targets: Some(vec![
                target("x64", true, true),
                target("x86", true, true),
                target("arm64", true, false),
                target("note", false, true),
            ]),
        },
        MsvcHost {
            name: "Hostx86".to_string(),
            is_dir: true,
            targets: Some(vec![target("x86", true, true)]),
        },
        MsvcHost { name: "file".to_string(), is_dir: false, targets: Some(vec![target("x64", true, true)]) },
        MsvcHost { name: "closed".to_string(), is_dir: true, targets: None },
    ]);
    let tools = vec![
        MsvcTools { generator: None, versions: None },
        MsvcTools {
            generator: some("Visual Studio 17 2022"),
            versions: Some(vec![latest, version("14.2.9", true)]),
        },
    ];
    let found = probe_msvc(&tools);
    let names: Vec<&str> = found.iter().map(|t| t.name.as_str()).collect();
    assert_eq!(names, vec!["MSVC amd64", "MSVC amd64_x86", "MSVC x86"]);
    assert_eq!(found[0].arch, some("x64"));
    assert_eq!(found[1].arch, some("Win32"));
    assert_eq!(found[0].toolset, None);
    assert_eq!(found[2].toolset, some("host=x86"));
    assert_eq!(found[0].version, "14.38.1");
    assert_eq!(found[0].path, "cl/x64");
    assert_eq!(found[0].cxx, None);
    assert_eq!(found[0].generator, some("Visual Studio 17 2022"));
}

#[test]
fn search_path_directories() {
    assert!(!dir_is_searched("/home/u/.VSCode/bin"));
    assert!(!dir_is_searched("C:\\Extensions\\x"));
    assert!(dir_is_searched("/usr/bin"));
    assert!(!lower_dir_is_searched(".vscode"));
    assert!(lower_dir_is_searched(".VSCODE"));
}

#[test]
fn mingw_paths() {
    assert!(may_be_mingw(Vendor::Gcc, "C:\\MinGW64\\bin\\gcc.exe", true));
    assert!(may_be_mingw(Vendor::Clang, "C:\\msys64\\clang.exe", true));
    assert!(!may_be_mingw(Vendor::ClangCl, "C:\\mingw\\clang-cl.exe", true));
    assert!(!may_be_mingw(Vendor::Gcc, "C:\\mingw\\gcc.exe", false));
    assert!(!may_be_mingw(Vendor::Gcc, "C:\\tools\\gcc.exe", true));
    assert!(!lower_path_may_be_mingw(Vendor::Gcc, "C:\\MINGW", true));
}

#[test]
fn compilers_on_the_search_path() {
    let gcc_text = "Target: x86_64-w64-mingw32\ngcc version 13.2.0 (x)\n";
    let mut gcc = path_file("C:\\mingw64\\bin\\gcc.exe", "gcc.exe", Some(gcc_text));
    gcc.sibling = some("C:\\mingw64\\bin\\g++.exe");
    gcc.has_make = true;
    let mut upper = path_file("x/GCC", "GCC", Some(gcc_text));
    upper.sibling = some("never");
    let mut no_file = path_file("d/gcc", "gcc", Some(gcc_text));
    no_file.is_file = false;
    let mut nameless = path_file("n/gcc", "gcc", Some(gcc_text));
    nameless.name = None;
    let dirs = vec![
        PathDir {
            path: "C:\\mingw64\\bin".to_string(),
            files: Some(vec![
                gcc,
                path_file("b/ls", "ls", Some(gcc_text)),
                path_file("b/gcc-9", "gcc-9", None),
                path_file("b/clang", "clang", Some(gcc_text)),
                path_file("b/clang-cl", "clang-cl", Some("clang version 16.0.0")),
                upper,
                no_file,
                nameless,
            ]),
        },
        PathDir {
            path: "/x/.vscode".to_string(),
            files: Some(vec![path_file("v/gcc", "gcc", Some(gcc_text))]),
        },
        PathDir { path: "/none".to_string(), files: None },
    ];
    let found = probe_path(&dirs, true);
    assert_eq!(paths(&found), vec!["C:\\mingw64\\bin\\gcc.exe", "b/clang-cl", "x/GCC"]);
    assert_eq!(found[0].generator, some("MinGW Makefiles"));
    assert_eq!(found[0].cxx, some("C:\\mingw64\\bin\\g++.exe"));
    assert_eq!(found[0].triple, some("x86_64-w64-mingw32"));
    assert_eq!(found[1].id, "clang-cl");
    assert_eq!(found[1].name, "Clang-cl");
    assert_eq!(found[1].cxx, some("b/clang-cl"));
    assert_eq!(found[1].generator, None);
    assert_eq!(found[2].cxx, None);
    assert_eq!(probe_path(&dirs, false)[0].generator, None);
}

#[test]
fn copies_are_taken_out() {
    let mut list = probe_mingw(&vec![
        compiler("A/gcc", true, Some("1.1.1"), None),
        compiler("b/gcc", true, Some("2.2.2"), None),
        compiler("a/GCC", true, Some("3.3.3"), None),
        compiler("É", true, Some("4.4.4"), None),
        compiler("é", true, Some("5.5.5"), None),
    ]);
    dedup_toolchains(&mut list);
    assert_eq!(paths(&list), vec!["A/gcc", "b/gcc", "É"]);
    dedup_toolchains(&mut list);
    assert_eq!(list.len(), 3);
}

fn host() -> HostView {
    HostView {
        mingw: vec![compiler("m/gcc.exe", true, Some("13.1.0"), None)],
        llvm: vec![LlvmTools {
            generator: some("Visual Studio 17 2022"),
            clang: compiler("l/clang.exe", true, Some("17.0.1"), None),
            clang_cl: compiler("l/clang-cl.exe", false, None, None),
        }],
        msvc: vec![MsvcTools { generator: None, versions: None }],
        path: vec![PathDir {
            path: "/p".to_string(),
            files: Some(vec![
                path_file("M/GCC.exe", "GCC.exe", Some("gcc version 13.1.0")),
                path_file("p/gcc", "gcc", Some("gcc version 12.1.0")),
            ]),
        }],
    }
}

#[test]
fn whole_scan() {
    assert_eq!(paths(&scan_toolchains(&host(), true)), vec!["m/gcc.exe", "l/clang.exe", "p/gcc"]);
    assert_eq!(paths(&scan_toolchains(&host(), false)), vec!["M/GCC.exe", "p/gcc"]);
}

#[test]
fn known_places_have_their_generators() {
    for t in probe_mingw(&host().mingw) {
        assert_eq!(t.generator, some("MinGW Makefiles"));
    }
    for t in probe_llvm(&vec![LlvmTools {
        generator: some("Visual Studio 17 2022"),
        clang: compiler("c", true, Some("17.0.1"), None),
        clang_cl: compiler("cl", true, Some("17.0.1"), None),
    }]) {
        if t.id == "clang" {
            assert_eq!(t.generator, some("MinGW Makefiles"));
        } else {
            assert_eq!(t.generator, some("Visual Studio 17 2022"));
        }
    }
}

#[test]
fn scans_match_generators_and_compilers() {
    for t in scan_toolchains(&host(), true) {
        let g = t.generator.unwrap_or_default();
        assert!(g.is_empty() || g == "MinGW Makefiles");
    }
}

#[test]
fn progress_of_a_scan() {
    assert_eq!(
        scan_stages(true),
        vec![ScanStage::Mingw, ScanStage::Llvm, ScanStage::Msvc, ScanStage::Path]
    );
    assert_eq!(scan_stages(false), vec![ScanStage::Path]);
    assert_eq!(stage_message(ScanStage::Mingw), "Scanning toolchains: MinGW GCC...");
    assert_eq!(stage_message(ScanStage::Llvm), "Scanning toolchains: LLVM/Clang...");
    assert_eq!(stage_message(ScanStage::Msvc), "Scanning toolchains: MSVC...");
    assert_eq!(stage_message(ScanStage::Path), "Scanning toolchains: PATH fallback...");
    assert_eq!(scan_done_message(12), "Toolchain scan done: 12 found");
}
