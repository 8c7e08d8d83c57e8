//! Laws on the list of toolchains and on the comparison with kits.
use vstd::prelude::*;

use crate::kits::{
    family_count, family_of, found_combos, kit_combos, kits_path_of, padded, scan_line_of,
    second_part, Kit,
};
use crate::laws::targets::lemma_first_is;
use crate::text::{after_prefix, contains_text, lemma_first_at, occurs_at};
use crate::toolchain::ToolchainView;

verus! {

// ---------------------------------------------------------------------------
// The list
// ---------------------------------------------------------------------------

/// A column is as wide as asked, or as its text where that is wider; the text stands at its
/// left, and spaces fill it up.
pub proof fn law_column(s: Seq<char>, w: nat)
    ensures
        padded(s, w).len() == if s.len() > w {
            s.len()
        } else {
            w
        },
        s.is_prefix_of(padded(s, w)),
        forall|i: int| s.len() <= i < padded(s, w).len() ==> #[trigger] padded(s, w)[i] == ' ',
{
    assert(padded(s, w).subrange(0, s.len() as int) =~= s);
}

/// A toolchain of which only the compiler for C is known is listed with its identifier, name,
/// version and path.
pub proof fn law_list_columns(t: ToolchainView)
    requires
        t.cxx is None,
        t.generator is None,
        t.arch is None,
        t.triple is None,
        t.toolset is None,
    ensures
        scan_line_of(t) == "["@ + padded(t.id, 8) + "] "@ + padded(t.name, 16) + " "@ + padded(
            t.version,
            12,
        ) + " "@ + t.path,
{
    let none = Seq::<char>::empty();
    let columns = "["@ + padded(t.id, 8) + "] "@ + padded(t.name, 16) + " "@ + padded(t.version, 12)
        + " "@ + t.path;
    assert(columns + none + none + none + none + none =~= columns);
}

/// What else is known of a toolchain stands behind that, each with its label.
pub proof fn law_list_labels(t: ToolchainView, x: Seq<char>)
    requires
        t.toolset is None,
    ensures
        scan_line_of(ToolchainView { toolset: Some(x), ..t }) == scan_line_of(t) + "  toolset="@
            + x,
        t.triple is None ==> scan_line_of(ToolchainView { triple: Some(x), ..t }) == scan_line_of(t)
            + "  triple="@ + x,
        t.triple is None && t.arch is None ==> scan_line_of(ToolchainView { arch: Some(x), ..t })
            == scan_line_of(t) + "  arch="@ + x,
        t.triple is None && t.arch is None && t.generator is None ==> scan_line_of(
            ToolchainView { generator: Some(x), ..t },
        ) == scan_line_of(t) + "  gen="@ + x,
        t.triple is None && t.arch is None && t.generator is None && t.cxx is None
            ==> scan_line_of(ToolchainView { cxx: Some(x), ..t }) == scan_line_of(t) + "  (cxx: "@
            + x + ")"@,
{
    let a = ToolchainView { toolset: Some(x), ..t };
    assert(scan_line_of(a) =~= scan_line_of(t) + "  toolset="@ + x);
    if t.triple is None {
        let b = ToolchainView { triple: Some(x), ..t };
        assert(scan_line_of(b) =~= scan_line_of(t) + "  triple="@ + x);
        if t.arch is None {
            let c = ToolchainView { arch: Some(x), ..t };
            assert(scan_line_of(c) =~= scan_line_of(t) + "  arch="@ + x);
            if t.generator is None {
                let d = ToolchainView { generator: Some(x), ..t };
                assert(scan_line_of(d) =~= scan_line_of(t) + "  gen="@ + x);
                if t.cxx is None {
                    let e = ToolchainView { cxx: Some(x), ..t };
                    assert(scan_line_of(e) =~= scan_line_of(t) + "  (cxx: "@ + x + ")"@);
                }
            }
        }
    }
}

// ---------------------------------------------------------------------------
// Arguments
// ---------------------------------------------------------------------------

/// The kits are read from the path behind the first `--kits`, whatever else is asked for.
pub proof fn law_kits_path(before: Seq<Seq<char>>, path: Seq<char>, after: Seq<Seq<char>>)
    requires
        !before.contains("--kits"@),
    ensures
        kits_path_of(before + seq!["--kits"@, path] + after) == path,
    decreases before.len(),
{
    let all = before + seq!["--kits"@, path] + after;
    if before.len() == 0 {
        assert(all[0] == "--kits"@);
        assert(all[1] == path);
    } else {
        assert(all[0] == before[0]);
        assert(before.contains(before[0]));
        let rest = before.skip(1);
        assert(!rest.contains("--kits"@)) by {
            if rest.contains("--kits"@) {
                let k = choose|k: int| 0 <= k < rest.len() && rest[k] == "--kits"@;
                assert(before[k + 1] == "--kits"@);
            }
        }
        law_kits_path(rest, path, after);
        assert(all.skip(1) =~= rest + seq!["--kits"@, path] + after);
    }
}

/// Without `--kits`, and with it at the end, the kits are read from one and the same path.
pub proof fn law_kits_path_default(args: Seq<Seq<char>>)
    requires
        !args.contains("--kits"@),
    ensures
        kits_path_of(args)
            == "C:\\Users\\56944\\AppData\\Local\\CMakeTools\\cmake-tools-kits.json"@,
        kits_path_of(args.push("--kits"@)) == kits_path_of(args),
    decreases args.len(),
{
    let more = args.push("--kits"@);
    if args.len() > 0 {
        assert(args.contains(args[0]));
        assert(more[0] == args[0]);
        let rest = args.skip(1);
        assert(!rest.contains("--kits"@)) by {
            if rest.contains("--kits"@) {
                let k = choose|k: int| 0 <= k < rest.len() && rest[k] == "--kits"@;
                assert(args[k + 1] == "--kits"@);
            }
        }
        law_kits_path_default(rest);
        assert(more.skip(1) =~= rest.push("--kits"@));
    }
}

// ---------------------------------------------------------------------------
// Families and combinations
// ---------------------------------------------------------------------------

/// A kit is of the family that its name tells, Clang before GCC before Visual Studio.
pub proof fn law_family(before: Seq<char>, after: Seq<char>)
    ensures
        family_of(before + "Clang"@ + after) == "clang"@,
        !contains_text(before + "GCC"@ + after, "Clang"@) ==> family_of(before + "GCC"@ + after)
            == "gcc"@,
        !contains_text(before + "Visual Studio"@ + after, "Clang"@) && !contains_text(
            before + "Visual Studio"@ + after,
            "GCC"@,
        ) ==> family_of(before + "Visual Studio"@ + after) == "msvc"@,
        !contains_text(before, "Clang"@) && !contains_text(before, "GCC"@) && !contains_text(
            before,
            "Visual Studio"@,
        ) ==> family_of(before) == "other"@,
{
    lemma_contains(before, "Clang"@, after);
    lemma_contains(before, "GCC"@, after);
    lemma_contains(before, "Visual Studio"@, after);
}

/// A text contains what stands in it.
proof fn lemma_contains(before: Seq<char>, p: Seq<char>, after: Seq<char>)
    ensures
        contains_text(before + p + after, p),
{
    let s = before + p + after;
    let at = before.len() as int;
    assert(s.subrange(at, at + p.len()) =~= p);
    assert(occurs_at(s, p, at));
}

/// Every kit is counted in one family: with one kit more, that family has one more, and the
/// others have as many as before.
pub proof fn law_family_counts(kits: Seq<Kit>, kit: Kit)
    ensures
        family_count(kits.push(kit), family_of(kit.name@)) == family_count(
            kits,
            family_of(kit.name@),
        ) + 1,
        forall|f: Seq<char>|
            f != family_of(kit.name@) ==> #[trigger] family_count(kits.push(kit), f)
                == family_count(kits, f),
        forall|f: Seq<char>| #[trigger] family_count(Seq::empty(), f) == 0,
{
    assert(kits.push(kit).drop_last() =~= kits);
}

/// The combination that a kit's name tells stands between its first two dashes with spaces
/// round them, or behind the only one.
pub proof fn law_second_part(first: Seq<char>, second: Seq<char>, rest: Seq<char>)
    requires
        forall|k: int|
            0 <= k < first.len() ==> !#[trigger] occurs_at(first + " - "@ + second, " - "@, k),
        forall|k: int|
            0 <= k < first.len() ==> !#[trigger] occurs_at(
                first + " - "@ + second + " - "@ + rest,
                " - "@,
                k,
            ),
        forall|k: int| 0 <= k < second.len() ==> !#[trigger] occurs_at(second, " - "@, k),
        forall|k: int|
            0 <= k < second.len() ==> !#[trigger] occurs_at(second + " - "@ + rest, " - "@, k),
    ensures
        second_part(first + " - "@ + second) == Some(second),
        second_part(first + " - "@ + second + " - "@ + rest) == Some(second),
{
    reveal_strlit(" - ");
    let d = " - "@;
    let at = first.len() as int;
    let s = first + d + second;
    assert(s.subrange(at, at + 3) =~= d);
    lemma_first_is(s, d, at);
    assert(s.skip(at + 3) =~= second);
    lemma_first_at(second, d);
    if contains_text(second, d) {
        let k = choose|k: int| occurs_at(second, d, k);
        assert(0 <= k < second.len());
    }
    let l = first + d + second + d + rest;
    assert(l.subrange(at, at + 3) =~= d);
    lemma_first_is(l, d, at);
    let tail = second + d + rest;
    assert(l.skip(at + 3) =~= tail);
    let n = second.len() as int;
    assert(tail.subrange(n, n + 3) =~= d);
    lemma_first_is(tail, d, n);
    assert(tail.take(n) =~= second);
}

/// A name without such a dash tells none.
pub proof fn law_no_second_part(name: Seq<char>)
    requires
        !contains_text(name, " - "@),
    ensures
        second_part(name) is None,
{
    lemma_first_at(name, " - "@);
}

/// Every kit of Visual Studio whose name tells a combination adds it to the reference, and
/// nothing else does.
pub proof fn law_kit_combos(kits: Seq<Kit>, combo: Seq<char>)
    ensures
        kit_combos(kits).contains(combo) <==> exists|i: int|
            {
                &&& 0 <= i < kits.len()
                &&& family_of((#[trigger] kits[i]).name@) == "msvc"@
                &&& second_part(kits[i].name@) == Some(combo)
            },
    decreases kits.len(),
{
    if kits.len() > 0 {
        let init = kits.drop_last();
        let before = kit_combos(init);
        law_kit_combos(init, combo);
        if kit_combos(kits).contains(combo) {
            let all = kit_combos(kits);
            let k = choose|k: int| 0 <= k < all.len() && all[k] == combo;
            if k < before.len() {
                assert(before[k] == combo);
                let i = choose|i: int|
                    {
                        &&& 0 <= i < init.len()
                        &&& family_of((#[trigger] init[i]).name@) == "msvc"@
                        &&& second_part(init[i].name@) == Some(combo)
                    };
                assert(kits[i] == init[i]);
            } else {
                assert(kits[kits.len() - 1] == kits.last());
            }
        }
        if exists|i: int|
            {
                &&& 0 <= i < kits.len()
                &&& family_of((#[trigger] kits[i]).name@) == "msvc"@
                &&& second_part(kits[i].name@) == Some(combo)
            } {
            let i = choose|i: int|
                {
                    &&& 0 <= i < kits.len()
                    &&& family_of((#[trigger] kits[i]).name@) == "msvc"@
                    &&& second_part(kits[i].name@) == Some(combo)
                };
            if i < init.len() {
                assert(init[i] == kits[i]);
                let k = choose|k: int| 0 <= k < before.len() && before[k] == combo;
                assert(kit_combos(kits)[k] == combo);
            } else {
                assert(kit_combos(kits)[before.len() as int] == combo);
            }
        }
    }
}

/// Every toolchain of Visual Studio that was found adds the combination behind `MSVC `, and
/// nothing else does.
pub proof fn law_found_combos(found: Seq<ToolchainView>, combo: Seq<char>)
    ensures
        found_combos(found).contains(combo) <==> exists|i: int|
            {
                &&& 0 <= i < found.len()
                &&& (#[trigger] found[i]).id == "msvc"@
                &&& found[i].name == "MSVC "@ + combo
            },
    decreases found.len(),
{
    if found.len() > 0 {
        let init = found.drop_last();
        let before = found_combos(init);
        law_found_combos(init, combo);
        let last = found.last();
        reveal_strlit("MSVC ");
        let label = "MSVC "@;
        if found_combos(found).contains(combo) {
            let all = found_combos(found);
            let k = choose|k: int| 0 <= k < all.len() && all[k] == combo;
            if k < before.len() {
                assert(before[k] == combo);
                let i = choose|i: int|
                    {
                        &&& 0 <= i < init.len()
                        &&& (#[trigger] init[i]).id == "msvc"@
                        &&& init[i].name == "MSVC "@ + combo
                    };
                assert(found[i] == init[i]);
            } else {
                assert(after_prefix(last.name, label) == Some(combo));
                assert(last.name =~= label + combo);
                assert(found[found.len() - 1] == last);
            }
        }
        if exists|i: int|
            {
                &&& 0 <= i < found.len()
                &&& (#[trigger] found[i]).id == "msvc"@
                &&& found[i].name == "MSVC "@ + combo
            } {
            let i = choose|i: int|
                {
                    &&& 0 <= i < found.len()
                    &&& (#[trigger] found[i]).id == "msvc"@
                    &&& found[i].name == "MSVC "@ + combo
                };
            if i < init.len() {
                assert(init[i] == found[i]);
                let k = choose|k: int| 0 <= k < before.len() && before[k] == combo;
                assert(found_combos(found)[k] == combo);
            } else {
                assert(label.is_prefix_of(last.name)) by {
                    assert(last.name.subrange(0, label.len() as int) =~= label);
                }
                assert(last.name.skip(label.len() as int) =~= combo);
                assert(last.name.subrange(label.len() as int, last.name.len() as int) =~= combo);
                assert(found_combos(found)[before.len() as int] == combo);
            }
        }
    }
}

} // verus!
