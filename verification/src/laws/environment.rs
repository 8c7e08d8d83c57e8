//! Laws on the environment of CMake and what is told of it.
use vstd::prelude::*;
use vstd::utf8::{encode_utf8, encode_utf8_decode_utf8};

use crate::environment::{
    cleaned, diagnostics_of, first_program, named, shown_value, variable_lines, vs_env_var_texts,
    ProgramPath,
};
use crate::platform::lowered;

verus! {

/// The variables of Visual Studio that CMake does not get.
pub open spec fn studio_variable(name: Seq<char>) -> bool {
    ||| name == "CMAKE_GENERATOR"@
    ||| name == "CMAKE_GENERATOR_INSTANCE"@
    ||| name == "CMAKE_GENERATOR_PLATFORM"@
    ||| name == "CMAKE_GENERATOR_TOOLSET"@
    ||| name == "VCToolsInstallDir"@
    ||| name == "VCToolsVersion"@
    ||| name == "VCINSTALLDIR"@
    ||| name == "DevEnvDir"@
    ||| name == "FrameworkDir"@
    ||| name == "FrameworkVersion"@
    ||| name == "FrameworkVer"@
    ||| name == "WindowsSdkDir"@
    ||| name == "WindowsSdkVerBinPath"@
    ||| name == "WindowsSdkBinPath"@
    ||| name == "WindowsLibPath"@
    ||| name == "UCRTVersion"@
    ||| name == "UniversalCRTSdkDir"@
    ||| name == "ExtensionSdkDir"@
    ||| name == "INCLUDE"@
    ||| name == "LIB"@
    ||| name == "LIBPATH"@
    ||| name == "CL"@
    ||| name == "_LINK_"@
}

/// The list of such variables holds them and no others.
pub proof fn law_studio_variables(name: Seq<char>)
    ensures
        vs_env_var_texts().contains(name) <==> studio_variable(name),
{
    let l = vs_env_var_texts();
    if studio_variable(name) {
        assert(l[0] == name || l[1] == name || l[2] == name || l[3] == name || l[4] == name || l[5]
            == name || l[6] == name || l[7] == name || l[8] == name || l[9] == name || l[10] == name
            || l[11] == name || l[12] == name || l[13] == name || l[14] == name || l[15] == name
            || l[16] == name || l[17] == name || l[18] == name || l[19] == name || l[20] == name
            || l[21] == name || l[22] == name);
    }
    if l.contains(name) {
        let k = choose|k: int| 0 <= k < l.len() && l[k] == name;
        assert(l[k] == name);
    }
}

/// A variable is kept where it is none of Visual Studio and no variable before it has a name
/// that differs in case alone.
pub proof fn law_variable_kept(vars: Seq<(Seq<char>, Seq<char>)>, i: int)
    requires
        0 <= i < vars.len(),
        !studio_variable(vars[i].0),
        forall|k: int| 0 <= k < i ==> lowered((#[trigger] vars[k]).0) != lowered(vars[i].0),
    ensures
        cleaned(vars).contains(vars[i]),
    decreases vars.len(),
{
    let init = vars.drop_last();
    law_studio_variables(vars[i].0);
    if i == vars.len() - 1 {
        assert(!named(init, vars[i].0)) by {
            if named(init, vars[i].0) {
                let k = choose|k: int|
                    0 <= k < init.len() && lowered((#[trigger] init[k]).0) == lowered(vars[i].0);
                assert(vars[k] == init[k]);
            }
        }
        let c = cleaned(vars);
        assert(c == cleaned(init).push(vars[i]));
        assert(c[c.len() - 1] == vars[i]);
    } else {
        assert(init[i] == vars[i]);
        assert forall|k: int| 0 <= k < i implies lowered((#[trigger] init[k]).0) != lowered(
            init[i].0,
        ) by {
            assert(vars[k] == init[k]);
        }
        law_variable_kept(init, i);
        let before = cleaned(init);
        let k = choose|k: int| 0 <= k < before.len() && before[k] == vars[i];
        assert(cleaned(vars)[k] == vars[i]);
    }
}

/// What is kept stood among the variables, is none of Visual Studio, and was the first of its
/// name without regard to case.
pub proof fn law_variable_real(vars: Seq<(Seq<char>, Seq<char>)>, j: int)
    requires
        0 <= j < cleaned(vars).len(),
    ensures
        !studio_variable(cleaned(vars)[j].0),
        exists|i: int|
            {
                &&& 0 <= i < vars.len()
                &&& #[trigger] vars[i] == cleaned(vars)[j]
                &&& forall|k: int|
                    0 <= k < i ==> lowered((#[trigger] vars[k]).0) != lowered(vars[i].0)
            },
    decreases vars.len(),
{
    let init = vars.drop_last();
    let c = cleaned(vars);
    law_studio_variables(c[j].0);
    if j < cleaned(init).len() {
        law_variable_real(init, j);
        let i = choose|i: int|
            {
                &&& 0 <= i < init.len()
                &&& #[trigger] init[i] == cleaned(init)[j]
                &&& forall|k: int|
                    0 <= k < i ==> lowered((#[trigger] init[k]).0) != lowered(init[i].0)
            };
        assert(vars[i] == c[j]);
        assert forall|k: int| 0 <= k < i implies lowered((#[trigger] vars[k]).0) != lowered(
            vars[i].0,
        ) by {
            assert(init[k] == vars[k]);
        }
    } else {
        let i = vars.len() - 1;
        assert(vars[i] == c[j]);
        assert(!named(init, vars[i].0));
        assert forall|k: int| 0 <= k < i implies lowered((#[trigger] vars[k]).0) != lowered(
            vars[i].0,
        ) by {
            assert(init[k] == vars[k]);
        }
    }
}

/// Another variable at the end changes nothing of what is kept of those before it: it is kept
/// behind them or left out.
pub proof fn law_variable_added(vars: Seq<(Seq<char>, Seq<char>)>, v: (Seq<char>, Seq<char>))
    ensures
        cleaned(vars.push(v)) == cleaned(vars) || cleaned(vars.push(v)) == cleaned(vars).push(v),
{
    assert(vars.push(v).drop_last() == vars);
}

/// The first path with a file is the program's, whatever stands after it.
pub proof fn law_first_program(
    before: Seq<ProgramPath>,
    p: ProgramPath,
    after: Seq<ProgramPath>,
)
    requires
        p.is_file,
        forall|i: int| 0 <= i < before.len() ==> !(#[trigger] before[i]).is_file,
    ensures
        first_program(before + seq![p] + after) == Some(p.path@),
    decreases before.len(),
{
    let all = before + seq![p] + after;
    if before.len() == 0 {
        assert(all[0] == p);
    } else {
        assert(all[0] == before[0]);
        let rest = before.skip(1);
        assert forall|i: int| 0 <= i < rest.len() implies !(#[trigger] rest[i]).is_file by {
            assert(rest[i] == before[i + 1]);
        }
        law_first_program(rest, p, after);
        assert(all.skip(1) =~= rest + seq![p] + after);
    }
}

/// There is no program where there is no file.
pub proof fn law_no_program(paths: Seq<ProgramPath>)
    requires
        forall|i: int| 0 <= i < paths.len() ==> !(#[trigger] paths[i]).is_file,
    ensures
        first_program(paths) is None,
    decreases paths.len(),
{
    if paths.len() > 0 {
        let rest = paths.skip(1);
        assert(!paths[0].is_file);
        assert forall|i: int| 0 <= i < rest.len() implies !(#[trigger] rest[i]).is_file by {
            assert(rest[i] == paths[i + 1]);
        }
        law_no_program(rest);
    }
}

/// Text after text is written byte for byte after it.
proof fn lemma_encode_concat(a: Seq<char>, b: Seq<char>)
    ensures
        encode_utf8(a + b) == encode_utf8(a) + encode_utf8(b),
    decreases a.len(),
{
    if a.len() == 0 {
        assert(a + b =~= b);
        assert(encode_utf8(a) + encode_utf8(b) =~= encode_utf8(b));
    } else {
        lemma_encode_concat(a.drop_first(), b);
        assert((a + b).drop_first() =~= a.drop_first() + b);
        assert(encode_utf8(a + b) =~= encode_utf8(a) + encode_utf8(b));
    }
}

/// A value of up to 120 bytes is shown whole; of a longer one the first 120 bytes are shown,
/// and three dots.
pub proof fn law_shown_value(head: Seq<char>, tail: Seq<char>)
    ensures
        encode_utf8(head).len() <= 120 ==> shown_value(head) == head,
        encode_utf8(head).len() == 120 && tail.len() > 0 ==> shown_value(head + tail) == head
            + "..."@,
{
    if encode_utf8(head).len() == 120 && tail.len() > 0 {
        lemma_encode_concat(head, tail);
        assert(encode_utf8(tail).len() > 0) by {
            reveal_with_fuel(encode_utf8, 2);
        }
        assert(encode_utf8(head + tail).subrange(0, 120) =~= encode_utf8(head));
        encode_utf8_decode_utf8(head);
    }
}

/// The diagnostics begin with where CMake is.
pub proof fn law_diagnostics_begin(path: Seq<char>)
    ensures
        diagnostics_of(Some(path), Seq::empty()) == "cmake: "@ + path,
        diagnostics_of(None, Seq::empty()) == "cmake: NOT FOUND"@,
{
    let none = Seq::<(String, Option<String>)>::empty();
    assert(variable_lines(none) =~= Seq::<Seq<char>>::empty());
    let a = "cmake: "@ + path;
    assert(seq![a] + variable_lines(none) =~= seq![a]);
    let b = "cmake: "@ + "NOT FOUND"@;
    assert(seq![b] + variable_lines(none) =~= seq![b]);
    reveal_strlit("cmake: ");
    reveal_strlit("NOT FOUND");
    reveal_strlit("cmake: NOT FOUND");
    assert(b =~= "cmake: NOT FOUND"@);
}

/// Every variable that is set has a line of its own behind the others, and one that is not set
/// has none.
pub proof fn law_diagnostics_tell(
    cmake: Option<Seq<char>>,
    vars: Seq<(String, Option<String>)>,
    name: String,
    value: String,
)
    ensures
        encode_utf8(value@).len() <= 120 ==> diagnostics_of(cmake, vars.push((name, Some(value))))
            == diagnostics_of(cmake, vars) + "\nenv "@ + name@ + "="@ + value@,
        diagnostics_of(cmake, vars.push((name, Some(value)))) == diagnostics_of(cmake, vars)
            + "\nenv "@ + name@ + "="@ + shown_value(value@),
        diagnostics_of(cmake, vars.push((name, None))) == diagnostics_of(cmake, vars),
{
    law_shown_value(value@, Seq::empty());
    let head = "cmake: "@ + match cmake {
        Some(path) => path,
        None => "NOT FOUND"@,
    };
    let set = vars.push((name, Some(value)));
    let unset = vars.push((name, None));
    assert(set.drop_last() == vars);
    assert(unset.drop_last() == vars);
    let line = "env "@ + name@ + "="@ + shown_value(value@);
    let before = seq![head] + variable_lines(vars);
    assert(variable_lines(set) == variable_lines(vars).push(line));
    assert(seq![head] + variable_lines(set) =~= before.push(line));
    assert(before.push(line).drop_last() =~= before);
    reveal_strlit("\n");
    reveal_strlit("env ");
    reveal_strlit("\nenv ");
    assert(diagnostics_of(cmake, set) =~= diagnostics_of(cmake, vars) + "\nenv "@ + name@ + "="@
        + shown_value(value@));
}

} // verus!
