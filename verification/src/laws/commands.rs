//! Laws on how CMake is called.
use vstd::prelude::*;

use crate::cache::{broken, conflict_of};
use crate::commands::{
    build_args_of, clear_reason, command_line, configure_args_of, generator_target,
};
use crate::targets::project_target;
use crate::text::{contains_text, occurs_at, white};
use crate::toolchain::ToolchainView;

verus! {

/// With a generator of Visual Studio CMake is told where the project and its build directory
/// are, the generator, and the platform and toolset of the toolchain as far as it has them. It
/// is told neither a build type nor compilers.
pub proof fn law_configure_studio(
    project_dir: Seq<char>,
    build_dir: Seq<char>,
    build_type: Seq<char>,
    tc: ToolchainView,
    stem: Option<Seq<char>>,
    generator: Seq<char>,
)
    requires
        tc.generator == Some(generator),
        "Visual Studio"@.is_prefix_of(generator),
    ensures
        ({
            let args = configure_args_of(project_dir, build_dir, build_type, tc, stem);
            let head = seq![
                "-S"@,
                project_dir,
                "-B"@,
                build_dir,
                "-DCMAKE_EXPORT_COMPILE_COMMANDS:BOOL=TRUE"@,
                "-G"@,
                generator,
            ];
            match (tc.arch, tc.toolset) {
                (Some(a), Some(t)) => args == head + seq!["-A"@, a, "-T"@, t],
                (Some(a), None) => args == head + seq!["-A"@, a],
                (None, Some(t)) => args == head + seq!["-T"@, t],
                (None, None) => args == head,
            }
        }),
{
}

/// With any other generator, or none, CMake is told the build type and both compilers: that for
/// C++ is the toolchain's own, or else goes with that for C.
pub proof fn law_configure_compilers(
    project_dir: Seq<char>,
    build_dir: Seq<char>,
    build_type: Seq<char>,
    tc: ToolchainView,
    stem: Option<Seq<char>>,
)
    requires
        tc.generator matches Some(g) ==> !"Visual Studio"@.is_prefix_of(g),
    ensures
        ({
            let args = configure_args_of(project_dir, build_dir, build_type, tc, stem);
            let head = seq![
                "-S"@,
                project_dir,
                "-B"@,
                build_dir,
                "-DCMAKE_BUILD_TYPE="@ + build_type,
                "-DCMAKE_EXPORT_COMPILE_COMMANDS:BOOL=TRUE"@,
            ];
            let cxx = match tc.cxx {
                Some(c) => c,
                None => if stem == Some("gcc"@) {
                    "g++"@
                } else {
                    "clang++"@
                },
            };
            let compilers = seq!["-DCMAKE_C_COMPILER="@ + tc.path, "-DCMAKE_CXX_COMPILER="@ + cxx];
            match tc.generator {
                Some(g) => args == head + seq!["-G"@, g] + compilers,
                None => args == head + compilers,
            }
        }),
{
}

/// Whatever the toolchain, the build type that is chosen reaches CMake: as an argument where it
/// configures, or where it builds with a generator of Visual Studio.
pub proof fn law_build_type_arrives(
    project_dir: Seq<char>,
    build_dir: Seq<char>,
    target: Seq<char>,
    build_type: Seq<char>,
    tc: ToolchainView,
    stem: Option<Seq<char>>,
    studio: bool,
)
    requires
        studio == (tc.generator matches Some(g) && "Visual Studio"@.is_prefix_of(g)),
    ensures
        !studio ==> configure_args_of(project_dir, build_dir, build_type, tc, stem).contains(
            "-DCMAKE_BUILD_TYPE="@ + build_type,
        ),
        studio ==> {
            let args = build_args_of(build_dir, target, build_type, studio);
            args.len() >= 2 && args[args.len() - 2] == "--config"@ && args.last() == build_type
        },
{
    let args = configure_args_of(project_dir, build_dir, build_type, tc, stem);
    if !studio {
        assert(args[4] == "-DCMAKE_BUILD_TYPE="@ + build_type);
    }
}

/// Where the generator is not one of Visual Studio, a target is built under the very name by
/// which it was offered, and nothing else is passed on. Without a target none is named.
pub proof fn law_build_plain(build_dir: Seq<char>, target: Seq<char>, build_type: Seq<char>)
    ensures
        target.len() > 0 ==> build_args_of(build_dir, target, build_type, false) == seq![
            "--build"@,
            build_dir,
            "--target"@,
            target,
        ],
        target.len() == 0 ==> build_args_of(build_dir, target, build_type, false) == seq![
            "--build"@,
            build_dir,
        ],
        generator_target(target, false) == target,
{
}

/// With a generator of Visual Studio the build type is passed on. A target that is neither `all`
/// nor `install` is built under its own name, and these two under the names of their projects.
pub proof fn law_build_studio(build_dir: Seq<char>, target: Seq<char>, build_type: Seq<char>)
    ensures
        target.len() == 0 ==> build_args_of(build_dir, target, build_type, true) == seq![
            "--build"@,
            build_dir,
            "--config"@,
            build_type,
        ],
        target.len() > 0 && target != "all"@ && target != "install"@ ==> build_args_of(
            build_dir,
            target,
            build_type,
            true,
        ) == seq!["--build"@, build_dir, "--target"@, target, "--config"@, build_type],
        build_args_of(build_dir, "all"@, build_type, true) == seq![
            "--build"@,
            build_dir,
            "--target"@,
            "ALL_BUILD"@,
            "--config"@,
            build_type,
        ],
        build_args_of(build_dir, "install"@, build_type, true) == seq![
            "--build"@,
            build_dir,
            "--target"@,
            "INSTALL"@,
            "--config"@,
            build_type,
        ],
        project_target("ALL_BUILD.vcxproj"@) == Some("all"@),
        project_target("INSTALL.vcxproj"@) == Some("install"@),
{
    reveal_strlit("all");
    reveal_strlit("install");
    assert("all"@.len() == 3 && "install"@.len() == 7);
    lemma_usual_projects();
}

/// The projects that build and install everything have the usual targets.
proof fn lemma_usual_projects()
    ensures
        project_target("ALL_BUILD.vcxproj"@) == Some("all"@),
        project_target("INSTALL.vcxproj"@) == Some("install"@),
{
    reveal_strlit(".vcxproj");
    reveal_strlit("ALL_BUILD");
    reveal_strlit("INSTALL");
    reveal_strlit("ZERO_CHECK");
    reveal_strlit("ALL_BUILD.vcxproj");
    reveal_strlit("INSTALL.vcxproj");
    let p = ".vcxproj"@;
    let a = "ALL_BUILD"@;
    let b = "INSTALL"@;
    assert("ALL_BUILD.vcxproj"@ =~= a + p);
    assert("INSTALL.vcxproj"@ =~= b + p);
    crate::laws::text::law_suffixes_go(a, p);
    crate::laws::text::law_suffixes_go(b, p);
    assert(!p.is_suffix_of(a)) by {
        if p.is_suffix_of(a) {
            assert(a.subrange(a.len() - p.len(), a.len() as int)[0] == p[0]);
        }
    }
    assert(!p.is_suffix_of(b));
    assert(a.len() == 9 && b.len() == 7 && "ZERO_CHECK"@.len() == 10);
}

/// Two targets are never built under the same name, unless one of them is `all` or `install` and
/// the other the name of its project.
pub proof fn law_targets_apart(a: Seq<char>, b: Seq<char>, studio: bool)
    requires
        a != b,
        a != "ALL_BUILD"@ && a != "INSTALL"@,
        b != "ALL_BUILD"@ && b != "INSTALL"@,
    ensures
        generator_target(a, studio) != generator_target(b, studio),
{
    reveal_strlit("ALL_BUILD");
    reveal_strlit("INSTALL");
    assert("ALL_BUILD"@.len() == 9 && "INSTALL"@.len() == 7);
}

/// The line that is shown starts with the program. An argument follows after a space, as it is
/// or, where it has white space, in quotes.
pub proof fn law_command_line(args: Seq<Seq<char>>, last: Seq<char>)
    ensures
        command_line(Seq::<Seq<char>>::empty()) == "cmake"@,
        (forall|i: int| 0 <= i < last.len() ==> !white(#[trigger] last[i])) ==> command_line(
            args.push(last),
        ) == command_line(args) + " "@ + last,
        (exists|i: int| 0 <= i < last.len() && white(#[trigger] last[i])) ==> command_line(
            args.push(last),
        ) == command_line(args) + " "@ + ("\""@ + last + "\""@),
{
    assert(args.push(last).drop_last() == args);
}

/// The cache is cleared exactly where the toolchain conflicts with it or what it names was not
/// found, and the user is told the conflict.
pub proof fn law_clear_reason(cache: Map<Seq<char>, Seq<char>>, tc: ToolchainView)
    ensures
        clear_reason(cache, tc) is Some <==> conflict_of(cache, tc) is Some || broken(cache),
        conflict_of(cache, tc) matches Some(c) ==> (clear_reason(cache, tc) matches Some(r)
            && contains_text(r, c)),
        conflict_of(cache, tc) is None && broken(cache) ==> (clear_reason(cache, tc) matches Some(r)
            && contains_text(r, "NOTFOUND"@)),
{
    if conflict_of(cache, tc) is None && broken(cache) {
        reveal_strlit("NOTFOUND");
        reveal_strlit("Broken build cache detected (compiler/linker NOTFOUND), clearing it");
        let r = "Broken build cache detected (compiler/linker NOTFOUND), clearing it"@;
        assert(r.subrange(45, 53) =~= "NOTFOUND"@);
        assert(occurs_at(r, "NOTFOUND"@, 45));
    }
    if conflict_of(cache, tc) is Some {
        let c = conflict_of(cache, tc)->0;
        let head = "Toolchain changed ("@;
        let r = head + c + "), clearing build cache"@;
        assert(r.subrange(head.len() as int, (head.len() + c.len()) as int) =~= c);
        assert(occurs_at(r, c, head.len() as int));
    }
}

} // verus!
