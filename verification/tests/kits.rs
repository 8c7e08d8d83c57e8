use cmake_tui_tool::kits::{
    benchmark, family_of_kit, kits_path_from_args, pad, scan_line, scan_summary, wants_benchmark,
    wants_json, Kit, KitCompilers,
};
use cmake_tui_tool::toolchain::Toolchain;

fn strings(list: &[&str]) -> Vec<String> {
    list.iter().map(|s| s.to_string()).collect()
}

fn some(s: &str) -> Option<String> {
    Some(s.to_string())
}

fn toolchain(id: &str, name: &str, path: &str, cxx: Option<&str>) -> Toolchain {
    Toolchain {
        id: id.to_string(),
        name: name.to_string(),
        version: "1.2.3".to_string(),
        path: path.to_string(),
        cxx: cxx.map(|s| s.to_string()),
        generator: None,
        arch: None,
        triple: None,
        toolset: None,
    }
}

fn kit(name: &str, c: Option<&str>, cxx: Option<&str>) -> Kit {
    Kit {
        name: name.to_string(),
        compilers: Some(KitCompilers {
            c: c.map(|s| s.to_string()),
            cxx: cxx.map(|s| s.to_string()),
        }),
    }
}

#[test]
fn arguments() {
    assert_eq!(kits_path_from_args(&strings(&["benchmark", "--kits", "k.json"])), "k.json");
    assert_eq!(kits_path_from_args(&strings(&["--kits", "--kits"])), "--kits");
    let default = kits_path_from_args(&strings(&["benchmark", "--kits"]));
    assert!(default.ends_with("\\CMakeTools\\cmake-tools-kits.json"));
    assert_eq!(kits_path_from_args(&Vec::new()), default);
    assert!(wants_json(&strings(&["scan", "--json"])));
    assert!(!wants_json(&strings(&["scan"])));
    assert!(wants_benchmark(&strings(&["bench"])));
    assert!(wants_benchmark(&strings(&["benchmark", "x"])));
    assert!(!wants_benchmark(&strings(&["scan", "bench"])));
    assert!(!wants_benchmark(&Vec::new()));
}

#[test]
fn families() {
    assert_eq!(family_of_kit("Clang 17 GCC"), "clang");
    assert_eq!(family_of_kit("GCC 13"), "gcc");
    assert_eq!(family_of_kit("Visual Studio 2022 - amd64"), "msvc");
    assert_eq!(family_of_kit("clang"), "other");
}

#[test]
fn columns_are_padded() {
    for s in ["", "a", "éé", "12345678", "123456789"] {
        assert_eq!(pad(s, 8), format!("{:8}", s));
    }
}

#[test]
fn listed_toolchains() {
    let mut t = toolchain("gcc", "GCC", "/usr/bin/gcc", Some("/usr/bin/g++"));
    assert_eq!(
        scan_line(&t),
        "[gcc     ] GCC              1.2.3        /usr/bin/gcc  (cxx: /usr/bin/g++)"
    );
    t.cxx = None;
    t.generator = some("Ninja");
    t.arch = some("x64");
    t.triple = some("a-b");
    t.toolset = some("T");
    assert_eq!(
        scan_line(&t),
        "[gcc     ] GCC              1.2.3        /usr/bin/gcc  gen=Ninja  arch=x64  triple=a-b  toolset=T"
    );
    assert_eq!(scan_summary(3), "\n3 toolchain(s) found");
}

#[test]
fn comparison() {
    let kits = vec![
        kit("GCC 13", Some("C:\\GCC.exe"), Some("C:\\g++.exe")),
        kit("Clang 17", Some("c:\\clang.exe"), Some("c:\\clang.exe")),
        kit("Visual Studio 2022 Release - amd64 - x", None, None),
        Kit { name: "Visual Studio 2022 - x86".to_string(), compilers: None },
        kit("Visual Studio", None, None),
    ];
    let found = vec![
        toolchain("gcc", "GCC", "c:\\gcc.exe", Some("c:\\other.exe")),
        toolchain("msvc", "MSVC amd64", "c:\\cl.exe", None),
        toolchain("gcc", "MSVC x86", "c:\\gcc.exe", None),
    ];
    assert_eq!(
        benchmark("k.json", &kits, &found),
        strings(&[
            "\n=== Toolchain scan results ===",
            "  [gcc     ] GCC                  1.2.3        c:\\gcc.exe",
            "            cxx: c:\\other.exe",
            "  [msvc    ] MSVC amd64           1.2.3        c:\\cl.exe",
            "  [gcc     ] MSVC x86             1.2.3        c:\\gcc.exe",
            "\n=== Benchmark vs k.json ===",
            "reference kits: 5 (gcc=1, clang=1, msvc=3)",
            "\n[compiler paths] reference=3 scanned=3",
            "  matched: 1",
            "    OK   c:\\gcc.exe",
            "  missing: 2",
            "    MISS c:\\clang.exe",
            "    MISS c:\\g++.exe",
            "  extra (not in reference): 2",
            "    EXTRA c:\\cl.exe",
            "    EXTRA c:\\other.exe",
            "    note: clang++.exe is used as the C++ driver for the GNU-CLI clang",
            "          (CMake Tools lists clang.exe for both C and CXX); MSVC cl.exe",
            "          paths are implicit in the reference VS kits, so they appear extra.",
            "\n[MSVC host/target combos] reference=2 scanned=1",
            "  matched combos: 1",
            "    OK   amd64",
            "    MISS x86",
            "\n=== Coverage: 1/3 unique reference compiler paths ===",
        ])
    );
}

#[test]
fn comparison_of_nothing() {
    assert_eq!(
        benchmark("k", &Vec::new(), &Vec::new()),
        strings(&[
            "\n=== Toolchain scan results ===",
            "\n=== Benchmark vs k ===",
            "reference kits: 0 (gcc=0, clang=0, msvc=0)",
            "\n[compiler paths] reference=0 scanned=0",
            "  matched: 0",
            "\n[MSVC host/target combos] reference=0 scanned=0",
            "  matched combos: 0",
        ])
    );
}
