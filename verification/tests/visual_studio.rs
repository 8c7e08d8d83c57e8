use cmake_tui_tool::visual_studio::{
    arch_label, cmake_arch, discover_vs_roots, extract_year, generator_from_root,
    generator_from_version_dir, host_label, host_toolset, labelled_msvc_name, llvm_steps,
    lower_cmake_arch, lower_host_label, lower_host_toolset, msvc_name, msvc_steps, vs_base_dirs,
    vs_generator, vs_instances, vswhere_args, vswhere_path, year_for_major, VsBase, VsDir, VsSubdir,
    VsWhereEntry,
};

fn some(s: &str) -> Option<String> {
    Some(s.to_string())
}

fn entry(path: &str, version: Option<&str>, name: Option<&str>) -> VsWhereEntry {
    VsWhereEntry {
        path: path.to_string(),
        version: version.map(|s| s.to_string()),
        display_name: name.map(|s| s.to_string()),
    }
}

#[test]
fn hosts_and_targets() {
    assert_eq!(arch_label("x64"), "amd64");
    assert_eq!(arch_label("x86"), "x86");
    assert_eq!(arch_label("arm64"), "arm64");
    assert_eq!(arch_label("mips"), "mips");
    assert_eq!(host_label("HostX64"), "amd64");
    assert_eq!(host_label("ARM64"), "arm64");
    assert_eq!(lower_host_label("hostx86"), "x86");
    assert_eq!(lower_host_label("x64"), "amd64");
    assert_eq!(msvc_name("Hostx64", "X64"), "MSVC amd64");
    assert_eq!(msvc_name("Hostx86", "x64"), "MSVC x86_amd64");
    assert_eq!(labelled_msvc_name("a", "b"), "MSVC a_b");
    assert_eq!(cmake_arch("X64"), "x64");
    assert_eq!(cmake_arch("x86"), "Win32");
    assert_eq!(cmake_arch("Arm64"), "ARM64");
    assert_eq!(cmake_arch("Other"), "Other");
    assert_eq!(lower_cmake_arch("x86", "X86"), "Win32");
    assert_eq!(host_toolset("HostX86"), some("host=x86"));
    assert_eq!(host_toolset("Hostx64"), None);
    assert_eq!(lower_host_toolset("X86"), None);
}

#[test]
fn years_and_major_versions() {
    assert_eq!(year_for_major(15), 2017);
    assert_eq!(year_for_major(16), 2019);
    assert_eq!(year_for_major(17), 2022);
    assert_eq!(year_for_major(18), 2026);
    assert_eq!(year_for_major(19), 2029);
    assert_eq!(year_for_major(14), 2022);
    assert_eq!(year_for_major(20), 2028);
    assert_eq!(extract_year("Visual Studio 2022"), Some(2022));
    assert_eq!(extract_year("12022 x"), Some(2022));
    assert_eq!(extract_year("1999 2101 2100"), Some(2100));
    assert_eq!(extract_year("202"), None);
    assert_eq!(extract_year("Édition 2019"), Some(2019));
}

#[test]
fn generators_by_version() {
    assert_eq!(vs_generator("17.8.3", "Build Tools 2022"), some("Visual Studio 17 2022"));
    assert_eq!(vs_generator("16.1", ""), some("Visual Studio 16 2019"));
    assert_eq!(vs_generator("x.1", "2022"), None);
    assert_eq!(vs_generator("", "2022"), None);
}

#[test]
fn generators_by_directory() {
    assert_eq!(generator_from_version_dir("2022"), some("Visual Studio 17 2022"));
    assert_eq!(generator_from_version_dir("2019"), some("Visual Studio 16 2019"));
    assert_eq!(generator_from_version_dir("2020"), None);
    assert_eq!(generator_from_version_dir("18"), some("Visual Studio 18 2026"));
    assert_eq!(generator_from_version_dir("Community"), None);
    assert_eq!(generator_from_root("/VS/2022/Community"), some("Visual Studio 17 2022"));
    assert_eq!(generator_from_root("/VS/17/Community/"), some("Visual Studio 17 2022"));
    assert_eq!(generator_from_root("/VS/Preview/Community"), None);
    assert_eq!(generator_from_root("/"), None);
    assert_eq!(generator_from_root("Community"), None);
}

#[test]
fn installations_by_vswhere() {
    let found = vs_instances(&vec![
        entry("", Some("17.1"), None),
        entry("/a", Some("17.1"), Some("2022")),
        entry("/b", None, Some("2022")),
        entry("/c", Some("16"), None),
    ])
    .unwrap();
    let pairs: Vec<(String, Option<String>)> =
        found.into_iter().map(|x| (x.root, x.generator)).collect();
    assert_eq!(
        pairs,
        vec![
            ("/a".to_string(), some("Visual Studio 17 2022")),
            ("/b".to_string(), None),
            ("/c".to_string(), some("Visual Studio 16 2019")),
        ]
    );
    assert!(vs_instances(&vec![entry("", None, None)]).is_none());
    assert!(vs_instances(&Vec::new()).is_none());
}

fn dir(path: &str, name: &str, is_dir: bool, has_tools: bool) -> VsDir {
    VsDir {
        path: path.to_string(),
        name: name.to_string(),
        is_dir,
        has_tools,
        children: None,
    }
}

fn base(name: &str, dirs: Vec<VsDir>) -> VsBase {
    VsBase { name: name.to_string(), dirs: Some(dirs) }
}

#[test]
fn installations_on_disk() {
    let bases = vec![
        VsBase { name: "x".to_string(), dirs: None },
        base("v", vec![
            dir("C:\\v\\file", "file", false, true),
            dir("C:\\v\\16", "16", true, true),
            VsDir {
                path: "C:\\v\\2022".to_string(),
                name: "2022".to_string(),
                is_dir: true,
                has_tools: false,
                children: Some(vec![
                    VsSubdir { path: "C:\\v\\2022\\Pro".to_string(), has_tools: true },
                    VsSubdir { path: "C:\\v\\2022\\Old".to_string(), has_tools: false },
                ]),
            },
            dir("C:\\v\\x", "x", true, false),
        ]),
        base("18", vec![dir("D:\\18\\y", "y", true, true)]),
    ];
    let found = discover_vs_roots(&bases);
    let pairs: Vec<(String, Option<String>)> =
        found.into_iter().map(|x| (x.root, x.generator)).collect();
    assert_eq!(
        pairs,
        vec![
            ("C:\\v\\16".to_string(), None),
            ("C:\\v\\2022\\Pro".to_string(), some("Visual Studio 17 2022")),
            ("D:\\18\\y".to_string(), some("Visual Studio 18 2026")),
        ]
    );
}

#[test]
fn places() {
    assert!(vswhere_path().ends_with("\\Installer\\vswhere.exe"));
    assert_eq!(vswhere_args().len(), 6);
    assert_eq!(vs_base_dirs()[0], "C:\\Program Files\\Microsoft Visual Studio");
    assert_eq!(vs_base_dirs()[1], "C:\\Program Files (x86)\\Microsoft Visual Studio");
    assert_eq!(msvc_steps(), vec!["VC", "Tools", "MSVC"]);
    assert_eq!(llvm_steps(), vec!["VC", "Tools", "Llvm", "x64", "bin"]);
}
