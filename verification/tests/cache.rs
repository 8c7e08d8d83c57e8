use cmake_tui_tool::cache::{
    broken_cache, cached_build_type, cached_compiler, choice_with_stem, chosen_toolchain,
    is_studio_cache, parse_cmake_cache, restore_from_cache, stale_cache_conflict, ToolchainChoice,
};
use cmake_tui_tool::commands::cache_clear_reason;
use cmake_tui_tool::toolchain::Toolchain;

fn some(s: &str) -> Option<String> {
    Some(s.to_string())
}

fn studio(id: &str, arch: Option<&str>, toolset: Option<&str>) -> Toolchain {
    Toolchain {
        id: id.to_string(),
        name: "n".to_string(),
        version: "1".to_string(),
        path: "/x/cl.exe".to_string(),
        cxx: None,
        generator: some("Visual Studio 17 2022"),
        arch: arch.map(|s| s.to_string()),
        triple: None,
        toolset: toolset.map(|s| s.to_string()),
    }
}

fn shown(c: ToolchainChoice) -> String {
    match c {
        ToolchainChoice::Unknown => "unknown".to_string(),
        ToolchainChoice::ByIdArch { id, arch } => format!("{}/{}", id, arch),
        ToolchainChoice::ByStem { stem } => format!("stem {}", stem),
    }
}

#[test]
fn entries_of_a_cache() {
    let m = parse_cmake_cache("# c\n//x\n\nA:STRING=1\n B :BOOL=a=b \nC=no\nD:no\n#E:X=1\nA:STRING=2\n:T=v\nF:PATH=\n");
    assert_eq!(m.get("A").map(|s| s.as_str()), Some("2"));
    assert_eq!(m.get("B").map(|s| s.as_str()), Some("a=b"));
    assert_eq!(m.get("").map(|s| s.as_str()), Some("v"));
    assert_eq!(m.get("F").map(|s| s.as_str()), Some(""));
    assert_eq!(m.get("C"), None);
    assert_eq!(m.get("D"), None);
    assert_eq!(m.get("E"), None);
    assert_eq!(m.len(), 4);
    assert!(parse_cmake_cache("").is_empty());
}

#[test]
fn broken_caches() {
    for key in ["CMAKE_C_COMPILER", "CMAKE_CXX_COMPILER", "CMAKE_LINKER", "CMAKE_AR"] {
        assert!(broken_cache(&parse_cmake_cache(&format!("{}:F={}-NOTFOUND", key, key))));
        assert!(!broken_cache(&parse_cmake_cache(&format!("{}:F=/usr/bin/x", key))));
    }
    assert!(!broken_cache(&parse_cmake_cache("X:F=NOTFOUND")));
    assert!(!broken_cache(&parse_cmake_cache("")));
}

#[test]
fn stale_caches() {
    let t = studio("msvc", Some("x64"), Some("host=x86"));
    let conflict = |s: &str| stale_cache_conflict(&parse_cmake_cache(s), &t);
    assert_eq!(
        conflict("CMAKE_GENERATOR:I=Ninja\nCMAKE_GENERATOR_PLATFORM:I=Win32"),
        some("generator: Ninja -> Visual Studio 17 2022")
    );
    assert_eq!(conflict("CMAKE_GENERATOR_PLATFORM:I=Win32"), some("platform: Win32 -> x64"));
    assert_eq!(
        conflict("CMAKE_GENERATOR_PLATFORM:I=x64\nCMAKE_GENERATOR_TOOLSET:I="),
        some("toolset:  -> host=x86")
    );
    assert_eq!(conflict("CMAKE_GENERATOR:I=Visual Studio 17 2022\nCMAKE_GENERATOR_PLATFORM:I=x64\nCMAKE_GENERATOR_TOOLSET:I=host=x86"), None);
    assert_eq!(conflict(""), None);
    let mut none = studio("gcc", None, None);
    none.generator = None;
    assert_eq!(stale_cache_conflict(&parse_cmake_cache("CMAKE_GENERATOR:I=Ninja"), &none), None);
}

#[test]
fn reasons_to_clear_a_cache() {
    let t = studio("msvc", None, None);
    assert_eq!(
        cache_clear_reason(&parse_cmake_cache("CMAKE_GENERATOR:I=Ninja\nCMAKE_AR:F=NOTFOUND"), &t),
        some("Toolchain changed (generator: Ninja -> Visual Studio 17 2022), clearing build cache")
    );
    assert_eq!(
        cache_clear_reason(&parse_cmake_cache("CMAKE_AR:F=NOTFOUND"), &t),
        some("Broken build cache detected (compiler/linker NOTFOUND), clearing it")
    );
    assert_eq!(cache_clear_reason(&parse_cmake_cache("CMAKE_AR:F=/usr/bin/ar"), &t), None);
}

#[test]
fn build_types_are_lower_case() {
    assert_eq!(cached_build_type(&parse_cmake_cache("CMAKE_BUILD_TYPE:S=RelWithDebInfo")), some("relwithdebinfo"));
    assert_eq!(cached_build_type(&parse_cmake_cache("CMAKE_BUILD_TYPE:S=")), None);
    assert_eq!(cached_build_type(&parse_cmake_cache("")), None);
}

#[test]
fn compilers_of_a_cache() {
    assert_eq!(cached_compiler(&parse_cmake_cache("CMAKE_C_COMPILER:F=/a/gcc\nCMAKE_CXX_COMPILER:F=/a/g++")), some("/a/gcc"));
    assert_eq!(cached_compiler(&parse_cmake_cache("CMAKE_C_COMPILER:F=X-NOTFOUND\nCMAKE_CXX_COMPILER:F=/a/g++")), some("/a/g++"));
    assert_eq!(cached_compiler(&parse_cmake_cache("CMAKE_C_COMPILER:F=")), None);
}

#[test]
fn choices_of_a_cache() {
    let choice = |s: &str| shown(restore_from_cache(&parse_cmake_cache(s)));
    assert_eq!(choice("CMAKE_GENERATOR:I=Visual Studio 17 2022\nCMAKE_GENERATOR_PLATFORM:I=x64\nCMAKE_GENERATOR_TOOLSET:I=ClangCL"), "clang-cl/x64");
    assert_eq!(choice("CMAKE_GENERATOR:I=Visual Studio 17 2022"), "msvc/");
    assert_eq!(choice("CMAKE_GENERATOR:I=Ninja\nCMAKE_C_COMPILER:F=/usr/bin/GCC.exe"), "stem gcc");
    assert_eq!(choice("CMAKE_C_COMPILER:F=/usr/.."), "unknown");
    assert_eq!(choice(""), "unknown");
    let none = parse_cmake_cache("");
    assert_eq!(shown(choice_with_stem(&none, some("cc"))), "stem cc");
    assert!(is_studio_cache(&parse_cmake_cache("CMAKE_GENERATOR:I=The Visual Studio")));
    assert!(!is_studio_cache(&none));
}

#[test]
fn caches_lead_back_to_their_toolchains() {
    let list = vec![
        studio("msvc", Some("Win32"), None),
        studio("clang-cl", Some("x64"), Some("ClangCL")),
        studio("msvc", Some("x64"), Some("host=x86")),
    ];
    for (i, t) in list.iter().enumerate() {
        let mut text = format!(
            "CMAKE_GENERATOR:I={}\nCMAKE_GENERATOR_PLATFORM:I={}\n",
            t.generator.clone().unwrap(),
            t.arch.clone().unwrap()
        );
        if let Some(s) = &t.toolset {
            text = format!("{}CMAKE_GENERATOR_TOOLSET:I={}\n", text, s);
        }
        let cache = parse_cmake_cache(&text);
        assert_eq!(chosen_toolchain(&list, &restore_from_cache(&cache)), Some(i));
        assert_eq!(stale_cache_conflict(&cache, t), None);
    }
    assert_eq!(chosen_toolchain(&list, &ToolchainChoice::Unknown), None);
    assert_eq!(chosen_toolchain(&list, &ToolchainChoice::ByStem { stem: "cl".to_string() }), Some(0));
    assert_eq!(chosen_toolchain(&list, &ToolchainChoice::ByStem { stem: "gcc".to_string() }), None);
}
