//! Reports on a scan: its list of toolchains, and a comparison with the kits of another tool.
use vstd::prelude::*;
use vstd::slice::slice_subrange;

use crate::number::{decimal, to_decimal};
use crate::platform::{lowered, string_of, to_lowercase};
use crate::text::{
    after_prefix, contains_text, equal, find, first_at, opt_text, position, str_contains,
    strip_prefix, texts, to_chars,
};
use crate::text_set::{
    in_list, insert_sorted, lemma_partition, lemma_selected, select, sorted_set,
};
use crate::toolchain::{toolchain_views, Toolchain, ToolchainView};

verus! {

// ---------------------------------------------------------------------------
// Columns
// ---------------------------------------------------------------------------

/// `s` with spaces behind it up to the width `w`.
pub open spec fn padded(s: Seq<char>, w: nat) -> Seq<char> {
    if s.len() >= w {
        s
    } else {
        s + Seq::new((w - s.len()) as nat, |i: int| ' ')
    }
}

/// `s` with spaces behind it up to the width `w`.
pub fn pad(s: &str, w: usize) -> (r: String)
    ensures
        r@ == padded(s@, w as nat),
{
    let mut chars = to_chars(s);
    while chars.len() < w
        invariant
            chars@.len() >= s@.len(),
            chars@.len() <= w || chars@ == s@,
            chars@ == s@ + Seq::new((chars@.len() - s@.len()) as nat, |i: int| ' '),
        decreases w - chars@.len(),
    {
        chars.push(' ');
        proof {
            assert(chars@ =~= s@ + Seq::new((chars@.len() - s@.len()) as nat, |i: int| ' '));
        }
    }
    string_of(chars.as_slice())
}

// ---------------------------------------------------------------------------
// The list of toolchains
// ---------------------------------------------------------------------------

/// The label and value of something that a toolchain has, or nothing.
pub open spec fn labelled(label: Seq<char>, o: Option<Seq<char>>) -> Seq<char> {
    match o {
        Some(v) => label + v,
        None => Seq::<char>::empty(),
    }
}

/// The line of a toolchain in the list.
pub open spec fn scan_line_of(t: ToolchainView) -> Seq<char> {
    let columns = "["@ + padded(t.id, 8) + "] "@ + padded(t.name, 16) + " "@ + padded(t.version, 12)
        + " "@ + t.path;
    let cxx = match t.cxx {
        Some(c) => "  (cxx: "@ + c + ")"@,
        None => Seq::<char>::empty(),
    };
    columns + cxx + labelled("  gen="@, t.generator) + labelled("  arch="@, t.arch) + labelled(
        "  triple="@,
        t.triple,
    ) + labelled("  toolset="@, t.toolset)
}

/// Appends a label and value, if there is a value.
fn append_labelled(out: &mut String, label: &str, o: &Option<String>)
    ensures
        final(out)@ == old(out)@ + labelled(label@, opt_text(*o)),
{
    let ghost before = out@;
    match o {
        Some(v) => {
            out.append(label);
            out.append(v.as_str());
            proof {
                assert(out@ =~= before + (label@ + v@));
            }
        },
        None => {
            proof {
                assert(out@ =~= before + Seq::<char>::empty());
            }
        },
    }
}

/// The identifier, name and version of a toolchain in columns, and its path.
fn columns(t: &Toolchain, name_width: usize) -> (r: String)
    ensures
        r@ == "["@ + padded(t@.id, 8) + "] "@ + padded(t@.name, name_width as nat) + " "@ + padded(
            t@.version,
            12,
        ) + " "@ + t@.path,
{
    let mut out = "[".to_owned();
    out.append(pad(t.id.as_str(), 8).as_str());
    out.append("] ");
    out.append(pad(t.name.as_str(), name_width).as_str());
    out.append(" ");
    out.append(pad(t.version.as_str(), 12).as_str());
    out.append(" ");
    out.append(t.path.as_str());
    out
}

/// The line of a toolchain in the list.
pub fn scan_line(t: &Toolchain) -> (r: String)
    ensures
        r@ == scan_line_of(t@),
{
    let mut out = columns(t, 16);
    let ghost head = out@;
    match &t.cxx {
        Some(c) => {
            out.append("  (cxx: ");
            out.append(c.as_str());
            out.append(")");
            proof {
                assert(out@ =~= head + ("  (cxx: "@ + c@ + ")"@));
            }
        },
        None => {
            proof {
                assert(out@ =~= head + Seq::<char>::empty());
            }
        },
    }
    append_labelled(&mut out, "  gen=", &t.generator);
    append_labelled(&mut out, "  arch=", &t.arch);
    append_labelled(&mut out, "  triple=", &t.triple);
    append_labelled(&mut out, "  toolset=", &t.toolset);
    out
}

/// The line below the list of toolchains.
pub fn scan_summary(found: usize) -> (r: String)
    ensures
        r@ == "\n"@ + decimal(found as nat) + " toolchain(s) found"@,
{
    let mut out = "\n".to_owned();
    out.append(to_decimal(found as u64).as_str());
    out.append(" toolchain(s) found");
    out
}

// ---------------------------------------------------------------------------
// Arguments
// ---------------------------------------------------------------------------

/// Where the kits are looked for unless an argument says otherwise.
pub open spec fn default_kits() -> Seq<char> {
    "C:\\Users\\56944\\AppData\\Local\\CMakeTools\\cmake-tools-kits.json"@
}

/// The path of the kits: the argument after the first `--kits` that has one after it.
pub open spec fn kits_path_of(args: Seq<Seq<char>>) -> Seq<char>
    decreases args.len(),
{
    if args.len() < 2 {
        default_kits()
    } else if args[0] == "--kits"@ {
        args[1]
    } else {
        kits_path_of(args.skip(1))
    }
}

/// The path of the kits.
pub fn kits_path_from_args(args: &Vec<String>) -> (r: String)
    ensures
        r@ == kits_path_of(texts(args@)),
{
    let ghost all = texts(args@);
    let n: usize = args.len();
    let mut i: usize = 0;
    proof {
        assert(all.skip(0) == all);
    }
    while i < n && n - i > 1
        invariant
            n == args@.len(),
            i <= n,
            all == texts(args@),
            kits_path_of(all) == kits_path_of(all.skip(i as int)),
        decreases n - i,
    {
        proof {
            assert(all.skip(i as int)[0] == args@[i as int]@);
            assert(all.skip(i as int)[1] == args@[i + 1]@);
            assert(all.skip(i as int).skip(1) == all.skip(i + 1));
        }
        if equal(args[i].as_str(), "--kits") {
            return args[i + 1].clone();
        }
        i = i + 1;
    }
    "C:\\Users\\56944\\AppData\\Local\\CMakeTools\\cmake-tools-kits.json".to_owned()
}

/// Whether the list is to be written as JSON.
pub fn wants_json(args: &Vec<String>) -> (r: bool)
    ensures
        r == texts(args@).contains("--json"@),
{
    position(args, "--json").is_some()
}

/// Whether a comparison is asked for, rather than the list, by the first argument.
pub fn wants_benchmark(args: &Vec<String>) -> (r: bool)
    ensures
        r == (args@.len() > 0 && (args@[0]@ == "benchmark"@ || args@[0]@ == "bench"@)),
{
    args.len() > 0 && (equal(args[0].as_str(), "benchmark") || equal(args[0].as_str(), "bench"))
}

// ---------------------------------------------------------------------------
// Kits
// ---------------------------------------------------------------------------

/// The compilers of a kit.
#[derive(Clone, Debug)]
pub struct KitCompilers {
    pub c: Option<String>,
    pub cxx: Option<String>,
}

/// A kit of the other tool.
#[derive(Clone, Debug)]
pub struct Kit {
    pub name: String,
    pub compilers: Option<KitCompilers>,
}

/// The family of a kit with this name.
pub open spec fn family_of(name: Seq<char>) -> Seq<char> {
    if contains_text(name, "Clang"@) {
        "clang"@
    } else if contains_text(name, "GCC"@) {
        "gcc"@
    } else if contains_text(name, "Visual Studio"@) {
        "msvc"@
    } else {
        "other"@
    }
}

/// The family of a kit with this name.
pub fn family_of_kit(name: &str) -> (r: &'static str)
    ensures
        r@ == family_of(name@),
{
    if str_contains(name, "Clang") {
        "clang"
    } else if str_contains(name, "GCC") {
        "gcc"
    } else if str_contains(name, "Visual Studio") {
        "msvc"
    } else {
        "other"
    }
}

/// How many kits are of a family.
pub open spec fn family_count(kits: Seq<Kit>, family: Seq<char>) -> nat
    decreases kits.len(),
{
    if kits.len() == 0 {
        0
    } else {
        family_count(kits.drop_last(), family) + if family_of(kits.last().name@) == family {
            1nat
        } else {
            0nat
        }
    }
}

/// How many kits are of a family.
fn count_family(kits: &Vec<Kit>, family: &str) -> (r: usize)
    ensures
        r == family_count(kits@, family@),
{
    let mut n: usize = 0;
    let mut i: usize = 0;
    while i < kits.len()
        invariant
            i <= kits@.len(),
            n <= i,
            n == family_count(kits@.take(i as int), family@),
        decreases kits@.len() - i,
    {
        proof {
            assert(kits@.take(i + 1).drop_last() == kits@.take(i as int));
        }
        if equal(family_of_kit(kits[i].name.as_str()), family) {
            n = n + 1;
        }
        i = i + 1;
    }
    proof {
        assert(kits@.take(i as int) == kits@);
    }
    n
}

// ---------------------------------------------------------------------------
// What is compared
// ---------------------------------------------------------------------------

/// `o` as a list of at most one lower-cased text.
pub open spec fn lowered_list(o: Option<Seq<char>>) -> Seq<Seq<char>> {
    match o {
        Some(p) => seq![lowered(p)],
        None => Seq::empty(),
    }
}

/// The compiler paths of a kit in lower case.
pub open spec fn kit_paths(k: Kit) -> Seq<Seq<char>> {
    match k.compilers {
        Some(c) => lowered_list(opt_text(c.c)) + lowered_list(opt_text(c.cxx)),
        None => Seq::empty(),
    }
}

/// The compiler paths of kits in lower case.
pub open spec fn kits_paths(kits: Seq<Kit>) -> Seq<Seq<char>>
    decreases kits.len(),
{
    if kits.len() == 0 {
        Seq::empty()
    } else {
        kits_paths(kits.drop_last()) + kit_paths(kits.last())
    }
}

/// The compiler paths of toolchains in lower case.
pub open spec fn found_paths(found: Seq<ToolchainView>) -> Seq<Seq<char>>
    decreases found.len(),
{
    if found.len() == 0 {
        Seq::empty()
    } else {
        found_paths(found.drop_last()).push(lowered(found.last().path)) + lowered_list(
            found.last().cxx,
        )
    }
}

/// The part of `s` between the first two `" - "`, or behind the only one.
pub open spec fn second_part(s: Seq<char>) -> Option<Seq<char>> {
    match first_at(s, " - "@) {
        None => None,
        Some(i) => {
            let rest = s.skip(i + 3);
            match first_at(rest, " - "@) {
                None => Some(rest),
                Some(j) => Some(rest.take(j)),
            }
        },
    }
}

/// The host and target of each kit of the MSVC family.
pub open spec fn kit_combos(kits: Seq<Kit>) -> Seq<Seq<char>>
    decreases kits.len(),
{
    if kits.len() == 0 {
        Seq::empty()
    } else {
        let before = kit_combos(kits.drop_last());
        let name = kits.last().name@;
        if family_of(name) == "msvc"@ {
            match second_part(name) {
                Some(c) => before.push(c),
                None => before,
            }
        } else {
            before
        }
    }
}

/// The host and target of each MSVC toolchain.
pub open spec fn found_combos(found: Seq<ToolchainView>) -> Seq<Seq<char>>
    decreases found.len(),
{
    if found.len() == 0 {
        Seq::empty()
    } else {
        let before = found_combos(found.drop_last());
        if found.last().id == "msvc"@ {
            match after_prefix(found.last().name, "MSVC "@) {
                Some(c) => before.push(c),
                None => before,
            }
        } else {
            before
        }
    }
}

/// Adds a path in lower case to a sorted set, if there is a path.
fn insert_lowered(set: &mut Vec<String>, o: &Option<String>, Ghost(l): Ghost<Seq<Seq<char>>>)
    requires
        texts(old(set)@) == sorted_set(l),
    ensures
        texts(final(set)@) == sorted_set(l + lowered_list(opt_text(*o))),
{
    match o {
        Some(p) => {
            let x = to_lowercase(p.as_str());
            proof {
                let m = l + lowered_list(opt_text(*o));
                assert(m.drop_last() =~= l);
                assert(m.last() == x@);
            }
            insert_sorted(set, x);
        },
        None => {
            proof {
                assert(l + lowered_list(opt_text(*o)) =~= l);
            }
        },
    }
}

/// The compiler paths of kits: in lower case, sorted, each once.
fn reference_paths(kits: &Vec<Kit>) -> (r: Vec<String>)
    ensures
        texts(r@) == sorted_set(kits_paths(kits@)),
{
    let mut set: Vec<String> = Vec::new();
    let mut i: usize = 0;
    proof {
        assert(texts(set@) =~= sorted_set(kits_paths(kits@.take(0))));
    }
    while i < kits.len()
        invariant
            i <= kits@.len(),
            texts(set@) == sorted_set(kits_paths(kits@.take(i as int))),
        decreases kits@.len() - i,
    {
        let ghost before = kits_paths(kits@.take(i as int));
        proof {
            assert(kits@.take(i + 1).drop_last() == kits@.take(i as int));
        }
        match &kits[i].compilers {
            Some(c) => {
                insert_lowered(&mut set, &c.c, Ghost(before));
                insert_lowered(
                    &mut set,
                    &c.cxx,
                    Ghost(before + lowered_list(opt_text(c.c))),
                );
                proof {
                    assert(before + lowered_list(opt_text(c.c)) + lowered_list(opt_text(c.cxx))
                        =~= before + kit_paths(kits@[i as int]));
                }
            },
            None => {
                proof {
                    assert(before + kit_paths(kits@[i as int]) =~= before);
                }
            },
        }
        i = i + 1;
    }
    proof {
        assert(kits@.take(i as int) == kits@);
    }
    set
}

/// The compiler paths of toolchains: in lower case, sorted, each once.
fn scanned_paths(found: &Vec<Toolchain>) -> (r: Vec<String>)
    ensures
        texts(r@) == sorted_set(found_paths(toolchain_views(found@))),
{
    let ghost all = toolchain_views(found@);
    let mut set: Vec<String> = Vec::new();
    let mut i: usize = 0;
    proof {
        assert(texts(set@) =~= sorted_set(found_paths(all.take(0))));
    }
    while i < found.len()
        invariant
            i <= found@.len(),
            all == toolchain_views(found@),
            texts(set@) == sorted_set(found_paths(all.take(i as int))),
        decreases found@.len() - i,
    {
        let ghost before = found_paths(all.take(i as int));
        let x = to_lowercase(found[i].path.as_str());
        let ghost more = before.push(x@);
        proof {
            assert(all.take(i + 1).drop_last() == all.take(i as int));
            assert(all.take(i + 1).last() == found@[i as int]@);
            assert(more.drop_last() =~= before);
        }
        insert_sorted(&mut set, x);
        insert_lowered(&mut set, &found[i].cxx, Ghost(more));
        i = i + 1;
    }
    proof {
        assert(all.take(i as int) == all);
    }
    set
}

/// The part of `s` between the first two `" - "`, or behind the only one.
fn second_piece(s: &str) -> (r: Option<String>)
    ensures
        opt_text(r) == second_part(s@),
{
    proof {
        reveal_strlit(" - ");
    }
    let chars = to_chars(s);
    let n: usize = chars.len();
    match find(chars.as_slice(), " - ") {
        None => None,
        Some(i) => {
            let rest = slice_subrange(chars.as_slice(), i + 3, n);
            proof {
                assert(rest@ =~= s@.skip(i + 3));
            }
            match find(rest, " - ") {
                None => Some(string_of(rest)),
                Some(j) => {
                    let piece = slice_subrange(rest, 0, j);
                    proof {
                        assert(piece@ =~= rest@.take(j as int));
                    }
                    Some(string_of(piece))
                },
            }
        },
    }
}

/// The hosts and targets of the kits of the MSVC family, sorted, each once.
fn reference_combos(kits: &Vec<Kit>) -> (r: Vec<String>)
    ensures
        texts(r@) == sorted_set(kit_combos(kits@)),
{
    let mut set: Vec<String> = Vec::new();
    let mut i: usize = 0;
    proof {
        assert(texts(set@) =~= sorted_set(kit_combos(kits@.take(0))));
    }
    while i < kits.len()
        invariant
            i <= kits@.len(),
            texts(set@) == sorted_set(kit_combos(kits@.take(i as int))),
        decreases kits@.len() - i,
    {
        proof {
            assert(kits@.take(i + 1).drop_last() == kits@.take(i as int));
        }
        if equal(family_of_kit(kits[i].name.as_str()), "msvc") {
            match second_piece(kits[i].name.as_str()) {
                Some(c) => {
                    proof {
                        let before = kit_combos(kits@.take(i as int));
                        assert(before.push(c@).drop_last() =~= before);
                    }
                    insert_sorted(&mut set, c);
                },
                None => {},
            }
        }
        i = i + 1;
    }
    proof {
        assert(kits@.take(i as int) == kits@);
    }
    set
}

/// The hosts and targets of the MSVC toolchains, sorted, each once.
fn scanned_combos(found: &Vec<Toolchain>) -> (r: Vec<String>)
    ensures
        texts(r@) == sorted_set(found_combos(toolchain_views(found@))),
{
    let ghost all = toolchain_views(found@);
    let mut set: Vec<String> = Vec::new();
    let mut i: usize = 0;
    proof {
        assert(texts(set@) =~= sorted_set(found_combos(all.take(0))));
    }
    while i < found.len()
        invariant
            i <= found@.len(),
            all == toolchain_views(found@),
            texts(set@) == sorted_set(found_combos(all.take(i as int))),
        decreases found@.len() - i,
    {
        proof {
            assert(all.take(i + 1).drop_last() == all.take(i as int));
            assert(all.take(i + 1).last() == found@[i as int]@);
        }
        if equal(found[i].id.as_str(), "msvc") {
            let name = to_chars(found[i].name.as_str());
            match strip_prefix(name.as_slice(), "MSVC ") {
                Some(c) => {
                    proof {
                        let before = found_combos(all.take(i as int));
                        assert(before.push(c@).drop_last() =~= before);
                    }
                    insert_sorted(&mut set, string_of(c));
                },
                None => {},
            }
        }
        i = i + 1;
    }
    proof {
        assert(all.take(i as int) == all);
    }
    set
}

// ---------------------------------------------------------------------------
// The report
// ---------------------------------------------------------------------------

/// The lines of a toolchain in the report.
pub open spec fn report_entry(t: ToolchainView) -> Seq<Seq<char>> {
    let columns = "  ["@ + padded(t.id, 8) + "] "@ + padded(t.name, 20) + " "@ + padded(
        t.version,
        12,
    ) + " "@ + t.path;
    match t.cxx {
        Some(c) => seq![columns, "            cxx: "@ + c],
        None => seq![columns],
    }
}

/// The lines of toolchains in the report.
pub open spec fn report_entries(found: Seq<ToolchainView>) -> Seq<Seq<char>>
    decreases found.len(),
{
    if found.len() == 0 {
        Seq::empty()
    } else {
        report_entries(found.drop_last()) + report_entry(found.last())
    }
}

/// The lines of a list, each behind a mark.
pub open spec fn marked(mark: Seq<char>, l: Seq<Seq<char>>) -> Seq<Seq<char>> {
    Seq::new(l.len(), |i: int| mark + l[i])
}

/// The lines on the compared compiler paths.
pub open spec fn path_section(reference: Seq<Seq<char>>, scanned: Seq<Seq<char>>) -> Seq<
    Seq<char>,
> {
    let matched = reference.filter(in_list(scanned, true));
    let missing = reference.filter(in_list(scanned, false));
    let extra = scanned.filter(in_list(reference, false));
    let head = seq![
        "\n[compiler paths] reference="@ + decimal(reference.len()) + " scanned="@ + decimal(
            scanned.len(),
        ),
        "  matched: "@ + decimal(matched.len()),
    ] + marked("    OK   "@, matched);
    let with_missing = if missing.len() == 0 {
        head
    } else {
        head.push("  missing: "@ + decimal(missing.len())) + marked("    MISS "@, missing)
    };
    if extra.len() == 0 {
        with_missing
    } else {
        with_missing.push("  extra (not in reference): "@ + decimal(extra.len())) + marked(
            "    EXTRA "@,
            extra,
        ) + seq![
            "    note: clang++.exe is used as the C++ driver for the GNU-CLI clang"@,
            "          (CMake Tools lists clang.exe for both C and CXX); MSVC cl.exe"@,
            "          paths are implicit in the reference VS kits, so they appear extra."@,
        ]
    }
}

/// The line on a host and target of the reference.
pub open spec fn combo_line(combo: Seq<char>, scanned: Seq<Seq<char>>) -> Seq<char> {
    if scanned.contains(combo) {
        "    OK   "@ + combo
    } else {
        "    MISS "@ + combo
    }
}

/// The lines on the compared hosts and targets.
pub open spec fn combo_section(reference: Seq<Seq<char>>, scanned: Seq<Seq<char>>) -> Seq<
    Seq<char>,
> {
    seq![
        "\n[MSVC host/target combos] reference="@ + decimal(reference.len()) + " scanned="@
            + decimal(scanned.len()),
        "  matched combos: "@ + decimal(reference.filter(in_list(scanned, true)).len()),
    ] + Seq::new(reference.len(), |i: int| combo_line(reference[i], scanned))
}

/// The line on how many of the reference's compiler paths were found.
pub open spec fn coverage_section(reference: Seq<Seq<char>>, scanned: Seq<Seq<char>>) -> Seq<
    Seq<char>,
> {
    if reference.len() == 0 {
        Seq::empty()
    } else {
        seq![
            "\n=== Coverage: "@ + decimal(reference.filter(in_list(scanned, true)).len()) + "/"@
                + decimal(reference.len()) + " unique reference compiler paths ==="@,
        ]
    }
}

/// The lines before the comparison.
pub open spec fn opening_section(
    kits_path: Seq<char>,
    kits: Seq<Kit>,
    found: Seq<ToolchainView>,
) -> Seq<Seq<char>> {
    seq!["\n=== Toolchain scan results ==="@] + report_entries(found) + seq![
        "\n=== Benchmark vs "@ + kits_path + " ==="@,
        "reference kits: "@ + decimal(kits.len()) + " (gcc="@ + decimal(
            family_count(kits, "gcc"@),
        ) + ", clang="@ + decimal(family_count(kits, "clang"@)) + ", msvc="@ + decimal(
            family_count(kits, "msvc"@),
        ) + ")"@,
    ]
}

/// The report that compares toolchains with kits.
pub open spec fn report_of(
    kits_path: Seq<char>,
    kits: Seq<Kit>,
    found: Seq<ToolchainView>,
) -> Seq<Seq<char>> {
    let reference = sorted_set(kits_paths(kits));
    let scanned = sorted_set(found_paths(found));
    opening_section(kits_path, kits, found) + path_section(reference, scanned) + combo_section(
        sorted_set(kit_combos(kits)),
        sorted_set(found_combos(found)),
    ) + coverage_section(reference, scanned)
}

/// Appends a line.
fn push_line(lines: &mut Vec<String>, line: String)
    ensures
        texts(final(lines)@) == texts(old(lines)@).push(line@),
{
    let ghost before = lines@;
    lines.push(line);
    proof {
        assert(texts(lines@) =~= texts(before).push(line@));
    }
}

/// A label and a number.
fn counted(label: &str, n: usize) -> (r: String)
    ensures
        r@ == label@ + decimal(n as nat),
{
    let mut out = label.to_owned();
    out.append(to_decimal(n as u64).as_str());
    out
}

/// Appends the lines of a list, each behind a mark.
fn push_marked(lines: &mut Vec<String>, mark: &str, l: &Vec<String>)
    ensures
        texts(final(lines)@) == texts(old(lines)@) + marked(mark@, texts(l@)),
{
    let ghost before = texts(lines@);
    let ghost all = marked(mark@, texts(l@));
    let mut i: usize = 0;
    proof {
        assert(before + all.take(0) =~= before);
    }
    while i < l.len()
        invariant
            i <= l@.len(),
            all == marked(mark@, texts(l@)),
            texts(lines@) == before + all.take(i as int),
        decreases l@.len() - i,
    {
        let mut line = mark.to_owned();
        line.append(l[i].as_str());
        push_line(lines, line);
        proof {
            assert(before + all.take(i + 1) =~= (before + all.take(i as int)).push(all[i as int]));
        }
        i = i + 1;
    }
    proof {
        assert(all.take(i as int) =~= all);
    }
}

/// Appends the lines before the comparison.
fn push_opening(
    lines: &mut Vec<String>,
    kits_path: &str,
    kits: &Vec<Kit>,
    found: &Vec<Toolchain>,
)
    ensures
        texts(final(lines)@) == texts(old(lines)@) + opening_section(
            kits_path@,
            kits@,
            toolchain_views(found@),
        ),
{
    let ghost all = toolchain_views(found@);
    let ghost start = texts(lines@);
    push_line(lines, "\n=== Toolchain scan results ===".to_owned());
    let ghost before = texts(lines@);
    let mut i: usize = 0;
    proof {
        assert(before + report_entries(all.take(0)) =~= before);
    }
    while i < found.len()
        invariant
            i <= found@.len(),
            all == toolchain_views(found@),
            texts(lines@) == before + report_entries(all.take(i as int)),
        decreases found@.len() - i,
    {
        let t = &found[i];
        let ghost so_far = texts(lines@);
        proof {
            assert(all.take(i + 1).drop_last() == all.take(i as int));
            assert(all.take(i + 1).last() == t@);
        }
        let mut line = "  ".to_owned();
        line.append(columns(t, 20).as_str());
        proof {
            reveal_strlit("  ");
            reveal_strlit("[");
            reveal_strlit("  [");
            assert(line@ =~= report_entry(t@)[0]);
        }
        push_line(lines, line);
        match &t.cxx {
            Some(c) => {
                let mut second = "            cxx: ".to_owned();
                second.append(c.as_str());
                push_line(lines, second);
                proof {
                    assert(texts(lines@) =~= so_far + report_entry(t@));
                }
            },
            None => {
                proof {
                    assert(texts(lines@) =~= so_far + report_entry(t@));
                }
            },
        }
        proof {
            assert(texts(lines@) =~= before + report_entries(all.take(i + 1)));
        }
        i = i + 1;
    }
    proof {
        assert(all.take(i as int) == all);
    }
    let mut title = "\n=== Benchmark vs ".to_owned();
    title.append(kits_path);
    title.append(" ===");
    push_line(lines, title);
    let mut counts = counted("reference kits: ", kits.len());
    counts.append(" (gcc=");
    counts.append(to_decimal(count_family(kits, "gcc") as u64).as_str());
    counts.append(", clang=");
    counts.append(to_decimal(count_family(kits, "clang") as u64).as_str());
    counts.append(", msvc=");
    counts.append(to_decimal(count_family(kits, "msvc") as u64).as_str());
    counts.append(")");
    push_line(lines, counts);
    proof {
        assert(texts(lines@) =~= start + opening_section(kits_path@, kits@, all));
    }
}

/// Appends the lines on the compared compiler paths.
fn push_paths(lines: &mut Vec<String>, reference: &Vec<String>, scanned: &Vec<String>)
    ensures
        texts(final(lines)@) == texts(old(lines)@) + path_section(
            texts(reference@),
            texts(scanned@),
        ),
{
    let ghost start = texts(lines@);
    let matched = select(reference, scanned, true);
    let missing = select(reference, scanned, false);
    let extra = select(scanned, reference, false);
    let mut head = counted("\n[compiler paths] reference=", reference.len());
    head.append(" scanned=");
    head.append(to_decimal(scanned.len() as u64).as_str());
    push_line(lines, head);
    push_line(lines, counted("  matched: ", matched.len()));
    push_marked(lines, "    OK   ", &matched);
    if missing.len() > 0 {
        push_line(lines, counted("  missing: ", missing.len()));
        push_marked(lines, "    MISS ", &missing);
    }
    if extra.len() > 0 {
        push_line(lines, counted("  extra (not in reference): ", extra.len()));
        push_marked(lines, "    EXTRA ", &extra);
        push_line(
            lines,
            "    note: clang++.exe is used as the C++ driver for the GNU-CLI clang".to_owned(),
        );
        push_line(
            lines,
            "          (CMake Tools lists clang.exe for both C and CXX); MSVC cl.exe".to_owned(),
        );
        push_line(
            lines,
            "          paths are implicit in the reference VS kits, so they appear extra.".to_owned(),
        );
    }
    proof {
        assert(texts(missing@).len() == missing@.len());
        assert(texts(extra@).len() == extra@.len());
        assert(texts(lines@) =~= start + path_section(texts(reference@), texts(scanned@)));
    }
}

/// Appends the lines on the compared hosts and targets.
fn push_combos(lines: &mut Vec<String>, reference: &Vec<String>, scanned: &Vec<String>)
    ensures
        texts(final(lines)@) == texts(old(lines)@) + combo_section(
            texts(reference@),
            texts(scanned@),
        ),
{
    let ghost start = texts(lines@);
    let ghost all = Seq::new(
        reference@.len(),
        |k: int| combo_line(texts(reference@)[k], texts(scanned@)),
    );
    let mut head = counted("\n[MSVC host/target combos] reference=", reference.len());
    head.append(" scanned=");
    head.append(to_decimal(scanned.len() as u64).as_str());
    push_line(lines, head);
    push_line(lines, counted("  matched combos: ", select(reference, scanned, true).len()));
    let ghost before = texts(lines@);
    let mut i: usize = 0;
    proof {
        assert(before + all.take(0) =~= before);
    }
    while i < reference.len()
        invariant
            i <= reference@.len(),
            all == Seq::new(
                reference@.len(),
                |k: int| combo_line(texts(reference@)[k], texts(scanned@)),
            ),
            texts(lines@) == before + all.take(i as int),
        decreases reference@.len() - i,
    {
        let mut line = if position(scanned, reference[i].as_str()).is_some() {
            "    OK   ".to_owned()
        } else {
            "    MISS ".to_owned()
        };
        line.append(reference[i].as_str());
        push_line(lines, line);
        proof {
            assert(before + all.take(i + 1) =~= (before + all.take(i as int)).push(all[i as int]));
        }
        i = i + 1;
    }
    proof {
        assert(all.take(i as int) =~= all);
        assert(texts(lines@) =~= start + combo_section(texts(reference@), texts(scanned@)));
    }
}

/// Appends the line on how many of the reference's compiler paths were found.
fn push_coverage(lines: &mut Vec<String>, reference: &Vec<String>, scanned: &Vec<String>)
    ensures
        texts(final(lines)@) == texts(old(lines)@) + coverage_section(
            texts(reference@),
            texts(scanned@),
        ),
{
    let ghost start = texts(lines@);
    let total: usize = reference.len();
    if total > 0 {
        let mut line = counted("\n=== Coverage: ", select(reference, scanned, true).len());
        line.append("/");
        line.append(to_decimal(total as u64).as_str());
        line.append(" unique reference compiler paths ===");
        push_line(lines, line);
    }
    proof {
        assert(texts(reference@).len() == total);
        assert(texts(lines@) =~= start + coverage_section(texts(reference@), texts(scanned@)));
    }
}

/// The report that compares toolchains with kits, line by line.
pub fn benchmark(kits_path: &str, kits: &Vec<Kit>, found: &Vec<Toolchain>) -> (r: Vec<String>)
    ensures
        texts(r@) == report_of(kits_path@, kits@, toolchain_views(found@)),
{
    let reference = reference_paths(kits);
    let scanned = scanned_paths(found);
    let reference_msvc = reference_combos(kits);
    let scanned_msvc = scanned_combos(found);
    let mut lines: Vec<String> = Vec::new();
    proof {
        assert(texts(lines@) =~= Seq::<Seq<char>>::empty());
    }
    push_opening(&mut lines, kits_path, kits, found);
    push_paths(&mut lines, &reference, &scanned);
    push_combos(&mut lines, &reference_msvc, &scanned_msvc);
    push_coverage(&mut lines, &reference, &scanned);
    proof {
        assert(texts(lines@) =~= report_of(kits_path@, kits@, toolchain_views(found@)));
    }
    lines
}

/// A path of the reference is matched or missing and never both; the extra paths are those that
/// only the scan has.
pub proof fn lemma_compared(
    reference: Seq<Seq<char>>,
    scanned: Seq<Seq<char>>,
    path: Seq<char>,
)
    ensures
        reference.contains(path) <==> (reference.filter(in_list(scanned, true)).contains(path)
            || reference.filter(in_list(scanned, false)).contains(path)),
        !(reference.filter(in_list(scanned, true)).contains(path) && reference.filter(
            in_list(scanned, false),
        ).contains(path)),
        scanned.filter(in_list(reference, false)).contains(path) <==> scanned.contains(path)
            && !reference.contains(path),
        reference.filter(in_list(scanned, true)).len() + reference.filter(
            in_list(scanned, false),
        ).len() == reference.len(),
{
    lemma_selected(reference, scanned, true, path);
    lemma_selected(reference, scanned, false, path);
    lemma_selected(scanned, reference, false, path);
    lemma_partition(reference, scanned);
}

} // verus!
