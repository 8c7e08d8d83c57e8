//! Laws on what the comparison with kits reports.
use vstd::prelude::*;

use crate::kits::{
    combo_line, combo_section, coverage_section, found_combos, found_paths, kit_combos, kit_paths,
    kits_paths, lowered_list, marked, opening_section, padded, path_section, report_entries,
    report_entry, report_of, Kit,
};
use crate::number::decimal;
use crate::platform::lowered;
use crate::text::opt_text;
use crate::text_set::{in_list, lemma_selected, lemma_sorted_set, lemma_text_lt, sorted_set};
use crate::toolchain::ToolchainView;

verus! {

// ---------------------------------------------------------------------------
// Paths
// ---------------------------------------------------------------------------

/// Whether a compiler of a kit has this path in lower case.
pub open spec fn kit_names(kit: Kit, path: Seq<char>) -> bool {
    kit.compilers matches Some(c) && {
        ||| c.c matches Some(p) && lowered(p@) == path
        ||| c.cxx matches Some(p) && lowered(p@) == path
    }
}

/// Whether a compiler of a toolchain has this path in lower case.
pub open spec fn toolchain_names(t: ToolchainView, path: Seq<char>) -> bool {
    ||| lowered(t.path) == path
    ||| t.cxx matches Some(p) && lowered(p) == path
}

/// Whether a kit has a compiler at this path.
pub open spec fn in_kits(kits: Seq<Kit>, path: Seq<char>) -> bool {
    exists|i: int| 0 <= i < kits.len() && kit_names(#[trigger] kits[i], path)
}

/// Whether a toolchain that was found has a compiler at this path.
pub open spec fn in_found(found: Seq<ToolchainView>, path: Seq<char>) -> bool {
    exists|i: int| 0 <= i < found.len() && toolchain_names(#[trigger] found[i], path)
}

/// One list behind another holds what either holds.
proof fn lemma_either(a: Seq<Seq<char>>, b: Seq<Seq<char>>, x: Seq<char>)
    ensures
        (a + b).contains(x) <==> a.contains(x) || b.contains(x),
{
    let ab = a + b;
    if a.contains(x) {
        let k = choose|k: int| 0 <= k < a.len() && a[k] == x;
        assert(ab[k] == x);
    }
    if b.contains(x) {
        let k = choose|k: int| 0 <= k < b.len() && b[k] == x;
        assert(ab[a.len() + k] == x);
    }
    if ab.contains(x) {
        let k = choose|k: int| 0 <= k < ab.len() && ab[k] == x;
        if k < a.len() {
            assert(a[k] == x);
        } else {
            assert(b[k - a.len()] == x);
        }
    }
}

/// A list of at most one path holds it.
proof fn lemma_one(o: Option<Seq<char>>, x: Seq<char>)
    ensures
        lowered_list(o).contains(x) <==> (o matches Some(p) && lowered(p) == x),
{
    if o is Some {
        assert(lowered_list(o)[0] == lowered(o->0));
    }
}

/// The reference holds the path of every compiler of every kit, and no other.
pub proof fn law_reference(kits: Seq<Kit>, path: Seq<char>)
    ensures
        kits_paths(kits).contains(path) <==> in_kits(kits, path),
    decreases kits.len(),
{
    if kits.len() > 0 {
        let init = kits.drop_last();
        let last = kits[kits.len() - 1];
        law_reference(init, path);
        lemma_either(kits_paths(init), kit_paths(last), path);
        assert(kit_paths(last).contains(path) <==> kit_names(last, path)) by {
            if last.compilers is Some {
                let c = last.compilers->0;
                lemma_one(opt_text(c.c), path);
                lemma_one(opt_text(c.cxx), path);
                lemma_either(lowered_list(opt_text(c.c)), lowered_list(opt_text(c.cxx)), path);
            }
        }
        if in_kits(init, path) {
            let i = choose|i: int| 0 <= i < init.len() && kit_names(#[trigger] init[i], path);
            assert(kits[i] == init[i]);
        }
        if in_kits(kits, path) && !kit_names(last, path) {
            let i = choose|i: int| 0 <= i < kits.len() && kit_names(#[trigger] kits[i], path);
            assert(init[i] == kits[i]);
        }
    }
}

/// The scan's side holds the path of every compiler that was found, and no other.
pub proof fn law_scanned(found: Seq<ToolchainView>, path: Seq<char>)
    ensures
        found_paths(found).contains(path) <==> in_found(found, path),
    decreases found.len(),
{
    if found.len() > 0 {
        let init = found.drop_last();
        let last = found[found.len() - 1];
        let own = seq![lowered(last.path)];
        law_scanned(init, path);
        assert(found_paths(init).push(lowered(last.path)) =~= found_paths(init) + own);
        lemma_either(found_paths(init), own, path);
        lemma_either(found_paths(init) + own, lowered_list(last.cxx), path);
        lemma_one(last.cxx, path);
        assert(own[0] == lowered(last.path));
        if in_found(init, path) {
            let i = choose|i: int|
                0 <= i < init.len() && toolchain_names(#[trigger] init[i], path);
            assert(found[i] == init[i]);
        }
        if in_found(found, path) && !toolchain_names(last, path) {
            let i = choose|i: int|
                0 <= i < found.len() && toolchain_names(#[trigger] found[i], path);
            assert(init[i] == found[i]);
        }
    }
}

/// A marked list holds the mark with each text.
proof fn lemma_marked(mark: Seq<char>, l: Seq<Seq<char>>, x: Seq<char>)
    requires
        l.contains(x),
    ensures
        marked(mark, l).contains(mark + x),
{
    let k = choose|k: int| 0 <= k < l.len() && l[k] == x;
    assert(marked(mark, l)[k] == mark + x);
}

/// A report holds what any of its sections holds.
proof fn lemma_sections(
    kits_path: Seq<char>,
    kits: Seq<Kit>,
    found: Seq<ToolchainView>,
    line: Seq<char>,
)
    ensures
        ({
            let reference = sorted_set(kits_paths(kits));
            let scanned = sorted_set(found_paths(found));
            let combos = combo_section(
                sorted_set(kit_combos(kits)),
                sorted_set(found_combos(found)),
            );
            report_of(kits_path, kits, found).contains(line) <==> {
                ||| opening_section(kits_path, kits, found).contains(line)
                ||| path_section(reference, scanned).contains(line)
                ||| combos.contains(line)
                ||| coverage_section(reference, scanned).contains(line)
            }
        }),
{
    let reference = sorted_set(kits_paths(kits));
    let scanned = sorted_set(found_paths(found));
    let a = opening_section(kits_path, kits, found);
    let b = path_section(reference, scanned);
    let c = combo_section(sorted_set(kit_combos(kits)), sorted_set(found_combos(found)));
    let d = coverage_section(reference, scanned);
    lemma_either(a, b, line);
    lemma_either(a + b, c, line);
    lemma_either(a + b + c, d, line);
}

/// Every path of a kit is reported: as found where the scan has it, and else as missing. Every
/// path that only the scan has is reported as extra.
pub proof fn law_paths_reported(
    kits_path: Seq<char>,
    kits: Seq<Kit>,
    found: Seq<ToolchainView>,
    path: Seq<char>,
)
    ensures
        in_kits(kits, path) && in_found(found, path) ==> report_of(kits_path, kits, found).contains(
            "    OK   "@ + path,
        ),
        in_kits(kits, path) && !in_found(found, path) ==> report_of(
            kits_path,
            kits,
            found,
        ).contains("    MISS "@ + path),
        !in_kits(kits, path) && in_found(found, path) ==> report_of(
            kits_path,
            kits,
            found,
        ).contains("    EXTRA "@ + path),
{
    let reference = sorted_set(kits_paths(kits));
    let scanned = sorted_set(found_paths(found));
    law_reference(kits, path);
    law_scanned(found, path);
    lemma_sorted_set(kits_paths(kits));
    lemma_sorted_set(found_paths(found));
    assert(reference.contains(path) <==> in_kits(kits, path));
    assert(scanned.contains(path) <==> in_found(found, path));
    let matched = reference.filter(in_list(scanned, true));
    let missing = reference.filter(in_list(scanned, false));
    let extra = scanned.filter(in_list(reference, false));
    lemma_selected(reference, scanned, true, path);
    lemma_selected(reference, scanned, false, path);
    lemma_selected(scanned, reference, false, path);
    let intro = seq![
        "\n[compiler paths] reference="@ + decimal(reference.len()) + " scanned="@ + decimal(
            scanned.len(),
        ),
        "  matched: "@ + decimal(matched.len()),
    ];
    let head = intro + marked("    OK   "@, matched);
    let told_missing = head.push("  missing: "@ + decimal(missing.len()));
    let with_missing = if missing.len() == 0 {
        head
    } else {
        told_missing + marked("    MISS "@, missing)
    };
    let told_extra = with_missing.push("  extra (not in reference): "@ + decimal(extra.len()));
    let notes = seq![
        "    note: clang++.exe is used as the C++ driver for the GNU-CLI clang"@,
        "          (CMake Tools lists clang.exe for both C and CXX); MSVC cl.exe"@,
        "          paths are implicit in the reference VS kits, so they appear extra."@,
    ];
    let with_extra = told_extra + marked("    EXTRA "@, extra);
    let section = path_section(reference, scanned);
    assert(section == if extra.len() == 0 {
        with_missing
    } else {
        with_extra + notes
    });
    assert forall|line: Seq<char>| with_missing.contains(line) implies section.contains(line) by {
        if extra.len() > 0 {
            let k = choose|k: int| 0 <= k < with_missing.len() && with_missing[k] == line;
            assert(section[k] == line);
        }
    }
    if in_kits(kits, path) && in_found(found, path) {
        let line = "    OK   "@ + path;
        lemma_marked("    OK   "@, matched, path);
        lemma_either(intro, marked("    OK   "@, matched), line);
        assert(head.contains(line));
        let k = choose|k: int| 0 <= k < head.len() && head[k] == line;
        assert(with_missing[k] == line);
        lemma_sections(kits_path, kits, found, line);
    }
    if in_kits(kits, path) && !in_found(found, path) {
        let line = "    MISS "@ + path;
        lemma_marked("    MISS "@, missing, path);
        lemma_either(told_missing, marked("    MISS "@, missing), line);
        lemma_sections(kits_path, kits, found, line);
    }
    if !in_kits(kits, path) && in_found(found, path) {
        let line = "    EXTRA "@ + path;
        lemma_marked("    EXTRA "@, extra, path);
        lemma_either(told_extra, marked("    EXTRA "@, extra), line);
        lemma_either(with_extra, notes, line);
        lemma_sections(kits_path, kits, found, line);
    }
}

/// Every combination that a kit names is reported: as found where the scan has it, and else as
/// missing.
pub proof fn law_combos_reported(
    kits_path: Seq<char>,
    kits: Seq<Kit>,
    found: Seq<ToolchainView>,
    combo: Seq<char>,
)
    requires
        kit_combos(kits).contains(combo),
    ensures
        found_combos(found).contains(combo) ==> report_of(kits_path, kits, found).contains(
            "    OK   "@ + combo,
        ),
        !found_combos(found).contains(combo) ==> report_of(kits_path, kits, found).contains(
            "    MISS "@ + combo,
        ),
{
    let reference = sorted_set(kit_combos(kits));
    let scanned = sorted_set(found_combos(found));
    lemma_sorted_set(kit_combos(kits));
    lemma_sorted_set(found_combos(found));
    assert(reference.contains(combo));
    let k = choose|k: int| 0 <= k < reference.len() && reference[k] == combo;
    let line = combo_line(combo, scanned);
    let section = combo_section(reference, scanned);
    assert(section[k + 2] == line);
    lemma_sections(kits_path, kits, found, line);
}

// ---------------------------------------------------------------------------
// Toolchains
// ---------------------------------------------------------------------------

/// A toolchain's lines stand among those of all.
proof fn lemma_entry(found: Seq<ToolchainView>, i: int, line: Seq<char>)
    requires
        0 <= i < found.len(),
        report_entry(found[i]).contains(line),
    ensures
        report_entries(found).contains(line),
    decreases found.len(),
{
    let init = found.drop_last();
    lemma_either(report_entries(init), report_entry(found.last()), line);
    if i < init.len() {
        assert(init[i] == found[i]);
        lemma_entry(init, i, line);
    }
}

/// Every toolchain that was found is reported with its identifier, name, version and path, and
/// its compiler for C++ where that is known.
pub proof fn law_toolchains_reported(
    kits_path: Seq<char>,
    kits: Seq<Kit>,
    found: Seq<ToolchainView>,
    i: int,
)
    requires
        0 <= i < found.len(),
    ensures
        report_of(kits_path, kits, found).contains(
            "  ["@ + padded(found[i].id, 8) + "] "@ + padded(found[i].name, 20) + " "@ + padded(
                found[i].version,
                12,
            ) + " "@ + found[i].path,
        ),
        found[i].cxx matches Some(c) ==> report_of(kits_path, kits, found).contains(
            "            cxx: "@ + c,
        ),
{
    let t = found[i];
    let entries = report_entries(found);
    let columns = "  ["@ + padded(t.id, 8) + "] "@ + padded(t.name, 20) + " "@ + padded(
        t.version,
        12,
    ) + " "@ + t.path;
    let opening = opening_section(kits_path, kits, found);
    assert forall|line: Seq<char>| report_entry(t).contains(line) implies report_of(
        kits_path,
        kits,
        found,
    ).contains(line) by {
        lemma_entry(found, i, line);
        let k = choose|k: int| 0 <= k < entries.len() && entries[k] == line;
        assert(opening[k + 1] == line);
        lemma_sections(kits_path, kits, found, line);
    }
    assert(report_entry(t)[0] == columns);
    assert(report_entry(t).contains(columns));
    if t.cxx is Some {
        let second = "            cxx: "@ + t.cxx->0;
        assert(report_entry(t)[1] == second);
        assert(report_entry(t).contains(second));
    }
}

// ---------------------------------------------------------------------------
// Coverage
// ---------------------------------------------------------------------------

/// A sorted set holds nothing twice.
proof fn lemma_once(l: Seq<Seq<char>>)
    ensures
        sorted_set(l).no_duplicates(),
{
    let s = sorted_set(l);
    lemma_sorted_set(l);
    assert forall|i: int, j: int| 0 <= i < s.len() && 0 <= j < s.len() && i != j implies s[i]
        != s[j] by {
        lemma_text_lt(s[i], s[j], s[i]);
        lemma_text_lt(s[j], s[i], s[j]);
    }
}

/// What is chosen from a list without repetitions has none.
proof fn lemma_filter_once(l: Seq<Seq<char>>, m: Seq<Seq<char>>, wanted: bool)
    requires
        l.no_duplicates(),
    ensures
        l.filter(in_list(m, wanted)).no_duplicates(),
    decreases l.len(),
{
    reveal(Seq::filter);
    if l.len() > 0 {
        let init = l.drop_last();
        lemma_filter_once(init, m, wanted);
        lemma_selected(init, m, wanted, l.last());
        assert(!init.contains(l.last()));
    }
}

/// The report ends with how many different paths the kits name and how many of them the scan
/// has, where they name any.
pub proof fn law_coverage(kits_path: Seq<char>, kits: Seq<Kit>, found: Seq<ToolchainView>)
    requires
        kits_paths(kits).len() > 0,
    ensures
        ({
            let named = kits_paths(kits).to_set();
            let covered = named.intersect(found_paths(found).to_set());
            report_of(kits_path, kits, found).last() == "\n=== Coverage: "@ + decimal(covered.len())
                + "/"@ + decimal(named.len()) + " unique reference compiler paths ==="@
        }),
{
    let paths = kits_paths(kits);
    let reference = sorted_set(paths);
    let scanned = sorted_set(found_paths(found));
    let matched = reference.filter(in_list(scanned, true));
    let named = paths.to_set();
    let covered = named.intersect(found_paths(found).to_set());
    lemma_sorted_set(paths);
    lemma_sorted_set(found_paths(found));
    lemma_once(paths);
    lemma_filter_once(reference, scanned, true);
    reference.unique_seq_to_set();
    matched.unique_seq_to_set();
    assert(reference.to_set() =~= named) by {
        assert forall|x: Seq<char>| reference.to_set().contains(x) <==> named.contains(x) by {
            assert(reference.contains(x) <==> paths.contains(x));
        }
    }
    assert(matched.to_set() =~= covered) by {
        assert forall|x: Seq<char>| matched.to_set().contains(x) <==> covered.contains(x) by {
            lemma_selected(reference, scanned, true, x);
            assert(reference.contains(x) <==> paths.contains(x));
            assert(scanned.contains(x) <==> found_paths(found).contains(x));
        }
    }
    assert(paths.contains(paths[0]));
    assert(reference.contains(paths[0]));
    assert(reference.len() > 0);
    let last = coverage_section(reference, scanned);
    assert(last.len() == 1);
    assert(report_of(kits_path, kits, found).last() == last[0]);
}

} // verus!
