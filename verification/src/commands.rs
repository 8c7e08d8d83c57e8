//! How CMake is called: its arguments, and what the user is told of the call.
use vstd::prelude::*;

use crate::cache::{broken, broken_cache, conflict_of, stale_cache_conflict};
use crate::number::{decimal, to_decimal};
use crate::string_map::StringMap;
use crate::targets::project_target;
use crate::text::{equal, is_white, opt_text, texts, to_chars, white, without_suffixes};
use crate::toolchain::{
    compiler_args, compiler_args_of, compiler_stem, is_multi_config, multi_config, stem_outcome,
    toolchain_title, Toolchain, ToolchainView,
};

verus! {

// ---------------------------------------------------------------------------
// Command lines
// ---------------------------------------------------------------------------

/// Whether a text has white space in it.
pub open spec fn has_white(s: Seq<char>) -> bool {
    exists|i: int| 0 <= i < s.len() && white(#[trigger] s[i])
}

/// An argument as a command line shows it: in quotes where it has white space.
pub open spec fn shown_arg(a: Seq<char>) -> Seq<char> {
    if has_white(a) {
        "\""@ + a + "\""@
    } else {
        a
    }
}

/// The command line of CMake with these arguments.
pub open spec fn command_line(args: Seq<Seq<char>>) -> Seq<char>
    decreases args.len(),
{
    if args.len() == 0 {
        "cmake"@
    } else {
        command_line(args.drop_last()) + " "@ + shown_arg(args.last())
    }
}

/// Whether a text has white space in it.
fn contains_white(s: &str) -> (r: bool)
    ensures
        r == has_white(s@),
{
    let chars = to_chars(s);
    let mut i: usize = 0;
    while i < chars.len()
        invariant
            i <= chars@.len(),
            chars@ == s@,
            forall|k: int| 0 <= k < i ==> !white(#[trigger] s@[k]),
        decreases chars@.len() - i,
    {
        if is_white(chars[i]) {
            proof {
                assert(white(s@[i as int]));
            }
            return true;
        }
        i = i + 1;
    }
    false
}

/// The command line of CMake with these arguments.
pub fn format_command(args: &Vec<String>) -> (r: String)
    ensures
        r@ == command_line(texts(args@)),
{
    let ghost all = texts(args@);
    let mut out = "cmake".to_owned();
    let mut i: usize = 0;
    proof {
        assert(all.take(0) =~= Seq::<Seq<char>>::empty());
    }
    while i < args.len()
        invariant
            i <= args@.len(),
            all == texts(args@),
            out@ == command_line(all.take(i as int)),
        decreases args@.len() - i,
    {
        let a = args[i].as_str();
        let ghost before = out@;
        proof {
            assert(all.take(i + 1).drop_last() == all.take(i as int));
            assert(all.take(i + 1).last() == args@[i as int]@);
        }
        out.append(" ");
        if contains_white(a) {
            out.append("\"");
            out.append(a);
            out.append("\"");
            proof {
                assert(out@ =~= before + " "@ + ("\""@ + a@ + "\""@));
            }
        } else {
            out.append(a);
        }
        i = i + 1;
    }
    proof {
        assert(all.take(i as int) == all);
    }
    out
}

// ---------------------------------------------------------------------------
// Configuring
// ---------------------------------------------------------------------------

/// The arguments that configure a project with a toolchain whose C compiler has the stem
/// `stem`. Generators that choose the build type when they build are not told it here.
pub open spec fn configure_args_of(
    project_dir: Seq<char>,
    build_dir: Seq<char>,
    build_type: Seq<char>,
    tc: ToolchainView,
    stem: Option<Seq<char>>,
) -> Seq<Seq<char>> {
    let dirs = seq!["-S"@, project_dir, "-B"@, build_dir];
    let typed = if multi_config(tc) {
        dirs
    } else {
        dirs.push("-DCMAKE_BUILD_TYPE="@ + build_type)
    };
    typed.push("-DCMAKE_EXPORT_COMPILE_COMMANDS:BOOL=TRUE"@) + compiler_args_of(tc, stem)
}

/// The arguments that configure a project with a toolchain whose C compiler has the stem
/// `stem`.
pub fn configure_args_with_stem(
    project_dir: &str,
    build_dir: &str,
    build_type: &str,
    tc: &Toolchain,
    stem: &Option<String>,
) -> (r: Vec<String>)
    ensures
        texts(r@) == configure_args_of(project_dir@, build_dir@, build_type@, tc@, opt_text(*stem)),
{
    let mut args: Vec<String> = Vec::new();
    args.push("-S".to_owned());
    args.push(project_dir.to_owned());
    args.push("-B".to_owned());
    args.push(build_dir.to_owned());
    if !is_multi_config(tc) {
        args.push("-DCMAKE_BUILD_TYPE=".to_owned().concat(build_type));
    }
    args.push("-DCMAKE_EXPORT_COMPILE_COMMANDS:BOOL=TRUE".to_owned());
    let mut rest = compiler_args(tc, stem);
    let ghost (a, b) = (args@, rest@);
    args.append(&mut rest);
    proof {
        assert(texts(args@) =~= texts(a) + texts(b));
        assert(texts(args@) =~= configure_args_of(
            project_dir@,
            build_dir@,
            build_type@,
            tc@,
            opt_text(*stem),
        ));
    }
    args
}

/// The arguments that configure a project with a toolchain.
pub fn configure_args(project_dir: &str, build_dir: &str, build_type: &str, tc: &Toolchain) -> (r: Vec<
    String,
>)
    ensures
        exists|stem: Option<Seq<char>>| #[trigger]
            stem_outcome(tc@.path, stem) && texts(r@) == configure_args_of(
                project_dir@,
                build_dir@,
                build_type@,
                tc@,
                stem,
            ),
        tc@.cxx is Some || multi_config(tc@) ==> texts(r@) == configure_args_of(
            project_dir@,
            build_dir@,
            build_type@,
            tc@,
            None,
        ),
{
    let stem = compiler_stem(tc.path.as_str());
    configure_args_with_stem(project_dir, build_dir, build_type, tc, &stem)
}

/// Why the cache of a build directory is cleared before it is configured with a toolchain:
/// it was made with another generator, or its compilers were not found.
pub open spec fn clear_reason(
    cache: Map<Seq<char>, Seq<char>>,
    tc: ToolchainView,
) -> Option<Seq<char>> {
    match conflict_of(cache, tc) {
        Some(c) => Some("Toolchain changed ("@ + c + "), clearing build cache"@),
        None => if broken(cache) {
            Some("Broken build cache detected (compiler/linker NOTFOUND), clearing it"@)
        } else {
            None
        },
    }
}

/// Why the cache of a build directory is cleared before it is configured with a toolchain.
pub fn cache_clear_reason(cache: &StringMap<String>, tc: &Toolchain) -> (r: Option<String>)
    requires
        cache.wf(),
    ensures
        opt_text(r) == clear_reason(cache@, tc@),
{
    match stale_cache_conflict(cache, tc) {
        Some(c) => {
            let mut out = "Toolchain changed (".to_owned();
            out.append(c.as_str());
            out.append("), clearing build cache");
            Some(out)
        },
        None => {
            if broken_cache(cache) {
                Some(
                    "Broken build cache detected (compiler/linker NOTFOUND), clearing it".to_owned(),
                )
            } else {
                None
            }
        },
    }
}

/// What stands above the output of a configuration: the state of the environment and the
/// command line.
pub fn configure_header(diagnostics: &str, args: &Vec<String>) -> (r: String)
    ensures
        r@ == diagnostics@ + "\n$ "@ + command_line(texts(args@)),
{
    let mut out = diagnostics.to_owned();
    out.append("\n$ ");
    out.append(format_command(args).as_str());
    out
}

/// What the user is told when a configuration starts.
pub fn configuring_message(tc: &Toolchain, build_type: &str) -> (r: String)
    ensures
        r@ == "Configuring: toolchain="@ + (tc@.name + " ("@ + tc@.version + ")"@) + " build_type="@
            + build_type@,
{
    let mut out = "Configuring: toolchain=".to_owned();
    out.append(toolchain_title(tc).as_str());
    out.append(" build_type=");
    out.append(build_type);
    out
}

/// What the user is told when a configuration has ended: how many targets there are, or
/// that it failed.
pub fn configured_message(targets: Option<usize>) -> (r: String)
    ensures
        r@ == match targets {
            Some(n) => "Configure succeeded: "@ + decimal(n as nat) + " target(s)"@,
            None => "Configure failed"@,
        },
{
    match targets {
        Some(n) => {
            let mut out = "Configure succeeded: ".to_owned();
            out.append(to_decimal(n as u64).as_str());
            out.append(" target(s)");
            out
        },
        None => "Configure failed".to_owned(),
    }
}

// ---------------------------------------------------------------------------
// Building
// ---------------------------------------------------------------------------

/// The name by which a generator knows a target.
pub open spec fn generator_target(target: Seq<char>, studio: bool) -> Seq<char> {
    if studio && target == "all"@ {
        "ALL_BUILD"@
    } else if studio && target == "install"@ {
        "INSTALL"@
    } else {
        target
    }
}

/// The arguments that build a target, or the default where it is empty. Generators of
/// Visual Studio are told the build type.
pub open spec fn build_args_of(
    build_dir: Seq<char>,
    target: Seq<char>,
    build_type: Seq<char>,
    studio: bool,
) -> Seq<Seq<char>> {
    let base = seq!["--build"@, build_dir];
    let aimed = if target.len() == 0 {
        base
    } else {
        base + seq!["--target"@, generator_target(target, studio)]
    };
    if studio {
        aimed + seq!["--config"@, build_type]
    } else {
        aimed
    }
}

/// The target of a project of a solution is built under the name of that project, where the
/// project does not itself have one of the usual names.
pub proof fn lemma_studio_target_names(file: Seq<char>)
    requires
        project_target(file) is Some,
        without_suffixes(file, ".vcxproj"@) != "all"@,
        without_suffixes(file, ".vcxproj"@) != "install"@,
    ensures
        generator_target(project_target(file)->0, true) == without_suffixes(file, ".vcxproj"@),
{
    reveal_strlit("all");
    reveal_strlit("install");
    assert("all"@.len() == 3 && "install"@.len() == 7);
}

/// The name by which a generator knows a target.
fn target_for_generator(target: &str, studio: bool) -> (r: String)
    ensures
        r@ == generator_target(target@, studio),
{
    if studio && equal(target, "all") {
        "ALL_BUILD".to_owned()
    } else if studio && equal(target, "install") {
        "INSTALL".to_owned()
    } else {
        target.to_owned()
    }
}

/// The arguments that build a target, or the default where it is empty.
pub fn build_args(build_dir: &str, target: &str, build_type: &str, studio: bool) -> (r: Vec<String>)
    ensures
        texts(r@) == build_args_of(build_dir@, target@, build_type@, studio),
{
    let mut args: Vec<String> = Vec::new();
    args.push("--build".to_owned());
    args.push(build_dir.to_owned());
    if !target.is_empty() {
        args.push("--target".to_owned());
        args.push(target_for_generator(target, studio));
    }
    if studio {
        args.push("--config".to_owned());
        args.push(build_type.to_owned());
    }
    proof {
        assert(texts(args@) =~= build_args_of(build_dir@, target@, build_type@, studio));
    }
    args
}

/// A target as the user is told of it.
pub open spec fn target_label_of(target: Seq<char>) -> Seq<char> {
    if target.len() == 0 {
        "all"@
    } else {
        target
    }
}

/// A target as the user is told of it.
pub fn target_label(target: &str) -> (r: String)
    ensures
        r@ == target_label_of(target@),
{
    if target.is_empty() {
        "all".to_owned()
    } else {
        target.to_owned()
    }
}

/// What stands above the output of a build.
pub fn build_header(build_dir: &str) -> (r: String)
    ensures
        r@ == "$ cmake --build "@ + build_dir@,
{
    "$ cmake --build ".to_owned().concat(build_dir)
}

/// What the user is told when a build starts.
pub fn building_message(target: &str) -> (r: String)
    ensures
        r@ == "Building '"@ + target_label_of(target@) + "'..."@,
{
    let mut out = "Building '".to_owned();
    out.append(target_label(target).as_str());
    out.append("'...");
    out
}

/// What the user is told when a build has ended.
pub fn built_message(target: &str, ok: bool) -> (r: String)
    ensures
        r@ == (if ok {
            "Build succeeded: "@
        } else {
            "Build failed: "@
        }) + target_label_of(target@),
{
    let mut out = if ok {
        "Build succeeded: ".to_owned()
    } else {
        "Build failed: ".to_owned()
    };
    out.append(target_label(target).as_str());
    out
}

} // verus!
