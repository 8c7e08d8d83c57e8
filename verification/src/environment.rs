//! The environment in which CMake runs: what is taken out of it, and what is told of it.
use vstd::prelude::*;
use vstd::utf8::{decode_utf8, encode_utf8, is_char_boundary};

use crate::platform::{lowered, to_lowercase};
use crate::text::{join, joined, opt_text, position, texts};

verus! {

// ---------------------------------------------------------------------------
// Variables of Visual Studio
// ---------------------------------------------------------------------------

/// The variables by which a prompt of Visual Studio would choose a generator or compiler.
pub open spec fn vs_env_var_texts() -> Seq<Seq<char>> {
    seq![
        "CMAKE_GENERATOR"@,
        "CMAKE_GENERATOR_INSTANCE"@,
        "CMAKE_GENERATOR_PLATFORM"@,
        "CMAKE_GENERATOR_TOOLSET"@,
        "VCToolsInstallDir"@,
        "VCToolsVersion"@,
        "VCINSTALLDIR"@,
        "DevEnvDir"@,
        "FrameworkDir"@,
        "FrameworkVersion"@,
        "FrameworkVer"@,
        "WindowsSdkDir"@,
        "WindowsSdkVerBinPath"@,
        "WindowsSdkBinPath"@,
        "WindowsLibPath"@,
        "UCRTVersion"@,
        "UniversalCRTSdkDir"@,
        "ExtensionSdkDir"@,
        "INCLUDE"@,
        "LIB"@,
        "LIBPATH"@,
        "CL"@,
        "_LINK_"@,
    ]
}

/// The variables by which a prompt of Visual Studio would choose a generator or compiler.
pub fn vs_env_vars() -> (r: Vec<String>)
    ensures
        texts(r@) == vs_env_var_texts(),
{
    let mut out: Vec<String> = Vec::new();
    out.push("CMAKE_GENERATOR".to_owned());
    out.push("CMAKE_GENERATOR_INSTANCE".to_owned());
    out.push("CMAKE_GENERATOR_PLATFORM".to_owned());
    out.push("CMAKE_GENERATOR_TOOLSET".to_owned());
    out.push("VCToolsInstallDir".to_owned());
    out.push("VCToolsVersion".to_owned());
    out.push("VCINSTALLDIR".to_owned());
    out.push("DevEnvDir".to_owned());
    out.push("FrameworkDir".to_owned());
    out.push("FrameworkVersion".to_owned());
    out.push("FrameworkVer".to_owned());
    out.push("WindowsSdkDir".to_owned());
    out.push("WindowsSdkVerBinPath".to_owned());
    out.push("WindowsSdkBinPath".to_owned());
    out.push("WindowsLibPath".to_owned());
    out.push("UCRTVersion".to_owned());
    out.push("UniversalCRTSdkDir".to_owned());
    out.push("ExtensionSdkDir".to_owned());
    out.push("INCLUDE".to_owned());
    out.push("LIB".to_owned());
    out.push("LIBPATH".to_owned());
    out.push("CL".to_owned());
    out.push("_LINK_".to_owned());
    proof {
        assert(texts(out@) =~= vs_env_var_texts());
    }
    out
}

// ---------------------------------------------------------------------------
// The environment of CMake
// ---------------------------------------------------------------------------

/// The names and values of variables.
pub open spec fn pair_texts(v: Seq<(String, String)>) -> Seq<(Seq<char>, Seq<char>)> {
    v.map_values(|p: (String, String)| (p.0@, p.1@))
}

/// Whether a variable with this name, without regard to case, stands among `vars`.
pub open spec fn named(vars: Seq<(Seq<char>, Seq<char>)>, name: Seq<char>) -> bool {
    exists|k: int| 0 <= k < vars.len() && lowered((#[trigger] vars[k]).0) == lowered(name)
}

/// The variables that CMake gets: of those whose names differ in case alone only the first,
/// and none of Visual Studio.
pub open spec fn cleaned(vars: Seq<(Seq<char>, Seq<char>)>) -> Seq<(Seq<char>, Seq<char>)>
    decreases vars.len(),
{
    if vars.len() == 0 {
        vars
    } else {
        let init = vars.drop_last();
        let v = vars.last();
        if named(init, v.0) || vs_env_var_texts().contains(v.0) {
            cleaned(init)
        } else {
            cleaned(init).push(v)
        }
    }
}

/// Of the variables that CMake gets, no two have names that differ in case alone, none is
/// one of Visual Studio, and all were there.
pub proof fn lemma_cleaned(vars: Seq<(Seq<char>, Seq<char>)>)
    ensures
        forall|i: int, j: int|
            0 <= i < j < cleaned(vars).len() ==> lowered((#[trigger] cleaned(vars)[i]).0)
                != lowered((#[trigger] cleaned(vars)[j]).0),
        forall|i: int|
            0 <= i < cleaned(vars).len() ==> !vs_env_var_texts().contains(
                (#[trigger] cleaned(vars)[i]).0,
            ) && vars.contains(cleaned(vars)[i]),
    decreases vars.len(),
{
    if vars.len() > 0 {
        let init = vars.drop_last();
        lemma_cleaned(init);
        let c = cleaned(vars);
        let before = cleaned(init);
        assert forall|i: int| 0 <= i < c.len() implies !vs_env_var_texts().contains(
            (#[trigger] c[i]).0,
        ) && vars.contains(c[i]) by {
            if i < before.len() {
                assert(c[i] == before[i]);
                assert(init.contains(before[i]));
                let k = choose|k: int| 0 <= k < init.len() && init[k] == before[i];
                assert(vars[k] == c[i]);
            } else {
                assert(vars[vars.len() - 1] == c[i]);
            }
        }
        assert forall|i: int, j: int| 0 <= i < j < c.len() implies lowered((#[trigger] c[i]).0)
            != lowered((#[trigger] c[j]).0) by {
            assert(c[i] == before[i]);
            if j < before.len() {
                assert(c[j] == before[j]);
            } else {
                assert(init.contains(before[i]));
                let k = choose|k: int| 0 <= k < init.len() && init[k] == before[i];
                assert(!named(init, vars.last().0));
                assert(lowered(init[k].0) != lowered(vars.last().0));
            }
        }
    }
}

/// Cleaning a second time changes nothing.
pub proof fn lemma_cleaned_twice(vars: Seq<(Seq<char>, Seq<char>)>)
    ensures
        cleaned(cleaned(vars)) == cleaned(vars),
{
    lemma_cleaned(vars);
    lemma_already_clean(cleaned(vars));
}

/// Variables whose names differ in more than case and are none of Visual Studio stay.
proof fn lemma_already_clean(vars: Seq<(Seq<char>, Seq<char>)>)
    requires
        forall|i: int, j: int|
            0 <= i < j < vars.len() ==> lowered((#[trigger] vars[i]).0) != lowered(
                (#[trigger] vars[j]).0,
            ),
        forall|i: int|
            0 <= i < vars.len() ==> !vs_env_var_texts().contains((#[trigger] vars[i]).0),
    ensures
        cleaned(vars) == vars,
    decreases vars.len(),
{
    if vars.len() > 0 {
        let init = vars.drop_last();
        assert forall|i: int, j: int| 0 <= i < j < init.len() implies lowered(
            (#[trigger] init[i]).0,
        ) != lowered((#[trigger] init[j]).0) by {
            assert(vars[i] == init[i] && vars[j] == init[j]);
        }
        assert forall|i: int| 0 <= i < init.len() implies !vs_env_var_texts().contains(
            (#[trigger] init[i]).0,
        ) by {
            assert(vars[i] == init[i]);
        }
        lemma_already_clean(init);
        let last = vars[vars.len() - 1];
        assert(!named(init, last.0)) by {
            if named(init, last.0) {
                let k = choose|k: int|
                    0 <= k < init.len() && lowered((#[trigger] init[k]).0) == lowered(last.0);
                assert(vars[k] == init[k]);
            }
        }
        assert(init.push(last) =~= vars);
    }
}

/// The variables that CMake gets.
pub fn clean_cmake_env(vars: &Vec<(String, String)>) -> (r: Vec<(String, String)>)
    ensures
        pair_texts(r@) == cleaned(pair_texts(vars@)),
{
    let ghost all = pair_texts(vars@);
    let studio = vs_env_vars();
    let mut seen: Vec<String> = Vec::new();
    let mut out: Vec<(String, String)> = Vec::new();
    let mut i: usize = 0;
    proof {
        assert(pair_texts(out@) =~= cleaned(all.take(0)));
    }
    while i < vars.len()
        invariant
            i <= vars@.len(),
            all == pair_texts(vars@),
            texts(studio@) == vs_env_var_texts(),
            seen@.len() <= i,
            forall|n: Seq<char>| #[trigger]
                named(all.take(i as int), n) <==> texts(seen@).contains(lowered(n)),
            pair_texts(out@) == cleaned(all.take(i as int)),
        decreases vars@.len() - i,
    {
        let ghost before = out@;
        let ghost old_seen = texts(seen@);
        let ghost done = all.take(i as int);
        let ghost now = all.take(i + 1);
        let key = &vars[i].0;
        let low = to_lowercase(key.as_str());
        let ghost lowkey = low@;
        proof {
            assert(now.drop_last() == done);
            assert(now.last() == (vars@[i as int].0@, vars@[i as int].1@));
        }
        let first = position(&seen, low.as_str()).is_none();
        if first {
            seen.push(low);
            proof {
                assert(texts(seen@) =~= old_seen.push(lowkey));
            }
        }
        if first && position(&studio, key.as_str()).is_none() {
            out.push((key.clone(), vars[i].1.clone()));
            proof {
                assert(pair_texts(out@) =~= pair_texts(before).push(now.last()));
            }
        }
        proof {
            assert(first == !named(done, key@));
            assert forall|n: Seq<char>| #[trigger] named(now, n) <==> texts(seen@).contains(
                lowered(n),
            ) by {
                if named(now, n) {
                    let k = choose|k: int|
                        0 <= k < now.len() && lowered((#[trigger] now[k]).0) == lowered(n);
                    if k < i {
                        assert(done[k] == now[k]);
                        assert(named(done, n));
                        let j = choose|j: int| 0 <= j < old_seen.len() && old_seen[j] == lowered(n);
                        assert(texts(seen@)[j] == lowered(n));
                    } else if first {
                        assert(texts(seen@)[old_seen.len() as int] == lowered(n));
                    } else {
                        assert(old_seen.contains(lowered(n)));
                    }
                }
                if texts(seen@).contains(lowered(n)) {
                    let j = choose|j: int|
                        0 <= j < texts(seen@).len() && texts(seen@)[j] == lowered(n);
                    if j < old_seen.len() {
                        assert(old_seen[j] == lowered(n));
                        assert(old_seen.contains(lowered(n)));
                        assert(named(done, n));
                        let k = choose|k: int|
                            0 <= k < done.len() && lowered((#[trigger] done[k]).0) == lowered(n);
                        assert(now[k] == done[k]);
                    } else {
                        assert(lowered(now[i as int].0) == lowered(n));
                    }
                }
            }
        }
        i = i + 1;
    }
    proof {
        assert(all.take(i as int) == all);
    }
    out
}

// ---------------------------------------------------------------------------
// Finding programs
// ---------------------------------------------------------------------------

/// The file names under which a program is looked for in a directory.
pub fn program_names(name: &str) -> (r: Vec<String>)
    ensures
        texts(r@) == seq![name@, name@ + ".exe"@],
{
    let mut out: Vec<String> = Vec::new();
    out.push(name.to_owned());
    out.push(name.to_owned().concat(".exe"));
    proof {
        assert(texts(out@) =~= seq![name@, name@ + ".exe"@]);
    }
    out
}

/// A path at which a program is looked for.
pub struct ProgramPath {
    pub path: String,
    pub is_file: bool,
}

/// The first path at which there is a file.
pub open spec fn first_program(paths: Seq<ProgramPath>) -> Option<Seq<char>>
    decreases paths.len(),
{
    if paths.len() == 0 {
        None
    } else if paths[0].is_file {
        Some(paths[0].path@)
    } else {
        first_program(paths.skip(1))
    }
}

/// The first path at which there is a file.
pub fn which(paths: &Vec<ProgramPath>) -> (r: Option<String>)
    ensures
        opt_text(r) == first_program(paths@),
{
    let mut i: usize = 0;
    proof {
        assert(paths@.skip(0) == paths@);
    }
    while i < paths.len()
        invariant
            i <= paths@.len(),
            first_program(paths@) == first_program(paths@.skip(i as int)),
        decreases paths@.len() - i,
    {
        if paths[i].is_file {
            return Some(paths[i].path.clone());
        }
        proof {
            assert(paths@.skip(i as int).skip(1) == paths@.skip(i + 1));
        }
        i = i + 1;
    }
    None
}

// ---------------------------------------------------------------------------
// Diagnostics
// ---------------------------------------------------------------------------

/// How many bytes of a value the diagnostics show.
pub const SHOWN_BYTES: usize = 120;

/// Whether a value can be cut where the diagnostics cut it: it is short enough, or the cut
/// falls between characters.
pub open spec fn can_be_shown(s: Seq<char>) -> bool {
    encode_utf8(s).len() > SHOWN_BYTES ==> is_char_boundary(encode_utf8(s), SHOWN_BYTES as int)
}

/// A value as the diagnostics show it: its first bytes and dots where it is long.
pub open spec fn shown_value(s: Seq<char>) -> Seq<char> {
    if encode_utf8(s).len() > SHOWN_BYTES {
        decode_utf8(encode_utf8(s).subrange(0, SHOWN_BYTES as int)) + "..."@
    } else {
        s
    }
}

/// The lines of the diagnostics on variables that are set.
pub open spec fn variable_lines(vars: Seq<(String, Option<String>)>) -> Seq<Seq<char>>
    decreases vars.len(),
{
    if vars.len() == 0 {
        Seq::<Seq<char>>::empty()
    } else {
        let before = variable_lines(vars.drop_last());
        match opt_text(vars.last().1) {
            Some(v) => before.push("env "@ + vars.last().0@ + "="@ + shown_value(v)),
            None => before,
        }
    }
}

/// The diagnostics: where CMake is, and the variables that are set.
pub open spec fn diagnostics_of(
    cmake: Option<Seq<char>>,
    vars: Seq<(String, Option<String>)>,
) -> Seq<char> {
    let first = "cmake: "@ + match cmake {
        Some(path) => path,
        None => "NOT FOUND"@,
    };
    joined(seq![first] + variable_lines(vars), "\n"@)
}

/// A value as the diagnostics show it.
fn show_value(s: &str) -> (r: String)
    requires
        can_be_shown(s@),
    ensures
        r@ == shown_value(s@),
{
    let bytes = s.as_bytes();
    let n: usize = bytes.len();
    if n > SHOWN_BYTES {
        let (head, _) = s.split_at(SHOWN_BYTES);
        proof {
            vstd::utf8::encode_utf8_decode_utf8(head@);
        }
        head.to_owned().concat("...")
    } else {
        s.to_owned()
    }
}

/// The diagnostics: where CMake is, and the variables that are set, of those with their
/// values in `vars`.
pub fn env_diagnostics(cmake: Option<String>, vars: &Vec<(String, Option<String>)>) -> (r: String)
    requires
        forall|i: int|
            0 <= i < vars@.len() ==> (opt_text((#[trigger] vars@[i]).1) matches Some(v)
                ==> can_be_shown(v)),
    ensures
        r@ == diagnostics_of(opt_text(cmake), vars@),
{
    let mut lines: Vec<String> = Vec::new();
    let mut first = "cmake: ".to_owned();
    match &cmake {
        Some(path) => {
            first.append(path.as_str());
        },
        None => {
            first.append("NOT FOUND");
        },
    }
    let ghost head = first@;
    lines.push(first);
    let mut i: usize = 0;
    proof {
        assert(variable_lines(vars@.take(0)) =~= Seq::<Seq<char>>::empty());
        assert(texts(lines@) =~= seq![head] + variable_lines(vars@.take(0)));
    }
    while i < vars.len()
        invariant
            i <= vars@.len(),
            forall|i: int|
                0 <= i < vars@.len() ==> (opt_text((#[trigger] vars@[i]).1) matches Some(v)
                    ==> can_be_shown(v)),
            texts(lines@) == seq![head] + variable_lines(vars@.take(i as int)),
        decreases vars@.len() - i,
    {
        let ghost before = lines@;
        proof {
            assert(vars@.take(i + 1).drop_last() == vars@.take(i as int));
            assert(vars@.take(i + 1).last() == vars@[i as int]);
        }
        match &vars[i].1 {
            Some(v) => {
                proof {
                    assert(opt_text(vars@[i as int].1) == Some(v@));
                }
                let mut line = "env ".to_owned();
                line.append(vars[i].0.as_str());
                line.append("=");
                line.append(show_value(v.as_str()).as_str());
                let ghost l = line@;
                lines.push(line);
                proof {
                    assert(texts(lines@) =~= texts(before).push(l));
                    assert(texts(lines@) =~= seq![head] + variable_lines(vars@.take(i + 1)));
                }
            },
            None => {},
        }
        i = i + 1;
    }
    proof {
        assert(vars@.take(i as int) == vars@);
    }
    join(&lines, "\n")
}

} // verus!
