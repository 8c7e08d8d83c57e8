use cmake_tui_tool::toolchain::{
    compiler_args, compiler_stem, compiler_stems, configure_compiler_args, copy_toolchain,
    is_multi_config, position_of_stem, push_generator, stem_of_file_name, toolchain_label,
    toolchain_title, toolchain_with_id_arch, toolchain_with_stem, Toolchain, ToolchainConfig,
};
use cmake_tui_tool::vendor::{
    command_text, compiler_kind, cxx_sibling, detect_compiler, sibling_compiler, stem_kind, Vendor,
};
use cmake_tui_tool::version::{
    clang_version, extract_version, first_version_token, gcc_version, key_not_after, target_triple,
    version_key,
};

fn toolchain(id: &str, path: &str) -> Toolchain {
    Toolchain {
        id: id.to_string(),
        name: "GCC".to_string(),
        version: "14.2.0".to_string(),
        path: path.to_string(),
        cxx: None,
        generator: None,
        arch: None,
        triple: None,
        toolset: None,
    }
}

fn some(s: &str) -> Option<String> {
    Some(s.to_string())
}

#[test]
fn versions_have_three_numbers() {
    assert_eq!(extract_version("gcc (x) 13.2.0\n"), some("13.2.0"));
    assert_eq!(extract_version("v 1.2 then 3.4.5.6."), some("3.4.5"));
    assert_eq!(extract_version("1..2.3 4.5.6"), some("4.5.6"));
    assert_eq!(extract_version(".1.2.3"), some("1.2.3"));
    assert_eq!(extract_version("12.34"), None);
    assert_eq!(extract_version("no digits"), None);
    assert_eq!(extract_version("ä 7.8.9..."), some("7.8.9"));
}

#[test]
fn labelled_versions() {
    assert_eq!(clang_version("x\nUbuntu clang version 18.1.3 (1)\n"), some("18.1.3"));
    assert_eq!(clang_version("Apple LLVM version 10.0.1. more"), some("10.0.1"));
    assert_eq!(clang_version("clang version \nclang version ...\nclang version 9"), some("9"));
    assert_eq!(clang_version("gcc version 1"), None);
    assert_eq!(gcc_version("  gcc version 13.2.0 (x)\n"), some("13.2.0"));
    assert_eq!(gcc_version("gcc-version 4.8."), some("4.8"));
    assert_eq!(gcc_version("my gcc version 3"), None);
    assert_eq!(target_triple("a\n  Target: x86_64-linux-gnu \n"), some("x86_64-linux-gnu"));
    assert_eq!(target_triple("Target:  \nTarget: arm"), some("arm"));
    assert_eq!(target_triple("Target:x"), None);
    assert_eq!(first_version_token(&[' ', '1', '.']), some("1"));
    assert_eq!(first_version_token(&['.', '.']), None);
    assert_eq!(first_version_token(&[' ']), None);
}

#[test]
fn version_keys_order_by_number() {
    assert_eq!(version_key("14.9.x"), vec![14, 9, 0]);
    assert_eq!(version_key(""), vec![0]);
    let a = version_key("14.9.1");
    let b = version_key("14.30.2");
    assert!(key_not_after(&a, &b));
    assert!(!key_not_after(&b, &a));
    assert!(key_not_after(&a, &a));
    assert!(key_not_after(&vec![14], &vec![14, 0]));
    assert!(!key_not_after(&vec![14, 0], &vec![14]));
}

#[test]
fn compilers_by_file_name() {
    assert_eq!(compiler_kind("clang-cl.exe"), Some(Vendor::ClangCl));
    assert_eq!(compiler_kind("Clang-CL-17"), Some(Vendor::ClangCl));
    assert_eq!(compiler_kind("clang-17"), Some(Vendor::Clang));
    assert_eq!(compiler_kind("clang"), Some(Vendor::Clang));
    assert_eq!(compiler_kind("gcc"), Some(Vendor::Gcc));
    assert_eq!(compiler_kind("gcc-13"), Some(Vendor::Gcc));
    assert_eq!(compiler_kind("x86_64-linux-gnu-gcc"), Some(Vendor::Gcc));
    assert_eq!(compiler_kind("arm-gcc-9"), Some(Vendor::Gcc));
    assert_eq!(compiler_kind("clang++"), None);
    assert_eq!(compiler_kind("g++"), None);
    assert_eq!(compiler_kind("gcc.EXE"), None);
    assert_eq!(compiler_kind("gcc.exe.exe"), Some(Vendor::Gcc));
    assert_eq!(stem_kind("GCC"), None);
}

#[test]
fn compilers_by_output() {
    let text = command_text(b"", b"Target: x\ngcc version 13.2.0 (y)\n");
    assert_eq!(text, "\nTarget: x\ngcc version 13.2.0 (y)\n");
    assert_eq!(detect_compiler(Vendor::Gcc, &text), Some(("13.2.0".to_string(), some("x"))));
    assert_eq!(detect_compiler(Vendor::Clang, &text), None);
    assert_eq!(
        detect_compiler(Vendor::ClangCl, "clang version 17.0.1"),
        Some(("17.0.1".to_string(), None))
    );
}

#[test]
fn output_is_decoded_with_replacements() {
    assert_eq!(command_text(b"a\xffb", "é".as_bytes()), "a\u{fffd}b\né");
}

#[test]
fn siblings() {
    assert_eq!(sibling_compiler("x-gcc-gcc", "gcc", "g++"), some("x-g++-gcc"));
    assert_eq!(sibling_compiler("cc", "gcc", "g++"), None);
    assert_eq!(cxx_sibling(Vendor::Gcc, "gcc-13"), some("g++-13"));
    assert_eq!(cxx_sibling(Vendor::Clang, "clang.exe"), some("clang++.exe"));
    assert_eq!(cxx_sibling(Vendor::Gcc, "GCC.exe"), None);
    assert_eq!(cxx_sibling(Vendor::ClangCl, "clang-cl.exe"), None);
}

#[test]
fn stems_are_lower_case_without_exe() {
    assert_eq!(compiler_stem("/usr/bin/GCC.EXE"), some("gcc"));
    assert_eq!(compiler_stem("gcc.exe.exe"), some("gcc"));
    assert_eq!(compiler_stem("/opt/bin/clang/"), some("clang"));
    assert_eq!(compiler_stem("a//b/./"), some("b"));
    assert_eq!(compiler_stem("/usr/.."), None);
    assert_eq!(compiler_stem("/"), None);
    assert_eq!(compiler_stem(""), None);
    assert_eq!(stem_of_file_name("ÄGCC.exe"), "ägcc");
}

#[test]
fn stems_ignore_exe_and_case() {
    assert_eq!(compiler_stem("/opt/bin/Clang-CL.EXE"), some("clang-cl"));
    for p in ["/opt/bin/Gcc-13", "clang", "C:/x/cl", "//server/share/bin/gcc", "a\\gcc"] {
        let stem = compiler_stem(p);
        assert!(stem.is_some());
        assert_eq!(compiler_stem(&format!("{}.exe", p)), stem);
        assert_eq!(compiler_stem(&p.to_ascii_uppercase()), stem);
    }
    assert_eq!(compiler_stem("//server/share/bin/gcc"), some("gcc"));
}

#[test]
fn toolchains_by_stem() {
    let list = vec![toolchain("gcc", "/a/gcc-13"), toolchain("gcc", "/b/gcc"), toolchain("gcc", "/c/GCC")];
    assert_eq!(toolchain_with_stem(&list, "gcc"), Some(1));
    assert_eq!(toolchain_with_stem(&list, "clang"), None);
    assert_eq!(compiler_stems(&list), vec![some("gcc-13"), some("gcc"), some("gcc")]);
    assert_eq!(position_of_stem(&vec![None, some("x")], "x"), Some(1));
    assert_eq!(position_of_stem(&vec![None], "x"), None);
}

#[test]
fn toolchains_by_identifier_and_architecture() {
    let mut a = toolchain("msvc", "a");
    a.arch = some("Win32");
    let mut b = toolchain("msvc", "b");
    b.arch = some("x64");
    let list = vec![toolchain("gcc", "g"), a, b];
    assert_eq!(toolchain_with_id_arch(&list, "msvc", "x64"), Some(2));
    assert_eq!(toolchain_with_id_arch(&list, "msvc", ""), Some(1));
    assert_eq!(toolchain_with_id_arch(&list, "gcc", "x64"), None);
    assert_eq!(toolchain_with_id_arch(&list, "clang", ""), None);
}

#[test]
fn studio_generators_get_platform_and_toolset() {
    let mut t = toolchain("clang-cl", "C:/x/clang-cl.exe");
    t.generator = some("Visual Studio 17 2022");
    t.arch = some("x64");
    t.toolset = some("ClangCL");
    assert!(is_multi_config(&t));
    assert_eq!(
        configure_compiler_args(&t),
        vec!["-G", "Visual Studio 17 2022", "-A", "x64", "-T", "ClangCL"]
    );
    t.arch = None;
    t.toolset = None;
    assert_eq!(configure_compiler_args(&t), vec!["-G", "Visual Studio 17 2022"]);
}

#[test]
fn other_generators_get_compilers() {
    let mut t = toolchain("gcc", "/usr/bin/gcc");
    assert!(!is_multi_config(&t));
    assert_eq!(
        configure_compiler_args(&t),
        vec!["-DCMAKE_C_COMPILER=/usr/bin/gcc", "-DCMAKE_CXX_COMPILER=g++"]
    );
    t.path = "/usr/bin/gcc-13".to_string();
    assert_eq!(configure_compiler_args(&t)[1], "-DCMAKE_CXX_COMPILER=clang++");
    assert_eq!(compiler_args(&t, &some("gcc"))[1], "-DCMAKE_CXX_COMPILER=g++");
    t.cxx = some("/usr/bin/g++-13");
    t.generator = some("MinGW Makefiles");
    assert_eq!(
        configure_compiler_args(&t),
        vec![
            "-G",
            "MinGW Makefiles",
            "-DCMAKE_C_COMPILER=/usr/bin/gcc-13",
            "-DCMAKE_CXX_COMPILER=/usr/bin/g++-13"
        ]
    );
    let mut args = vec!["x".to_string()];
    push_generator(&mut args, &t);
    assert_eq!(args, vec!["x", "-G", "MinGW Makefiles"]);
}

#[test]
fn labels() {
    let mut t = toolchain("gcc", "/usr/bin/gcc");
    assert_eq!(toolchain_title(&t), "GCC (14.2.0)");
    assert_eq!(toolchain_label(&t), "GCC (14.2.0)  /usr/bin/gcc");
    t.arch = some("x64");
    assert_eq!(toolchain_label(&t), "GCC (14.2.0) [x64]  /usr/bin/gcc");
    t.triple = some("x86_64-linux-gnu");
    assert_eq!(toolchain_label(&t), "GCC (14.2.0) [x86_64-linux-gnu]  /usr/bin/gcc");
}

#[test]
fn copies_and_defaults() {
    let mut t = toolchain("gcc", "/usr/bin/gcc");
    t.triple = some("t");
    let c = copy_toolchain(&t);
    assert_eq!(c.id, "gcc");
    assert_eq!(c.triple, some("t"));
    assert_eq!(c.cxx, None);
    assert!(ToolchainConfig::default().toolchains.is_empty());
}
