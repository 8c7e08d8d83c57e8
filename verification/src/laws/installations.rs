//! Laws on years and generators in general, and on what installations are made of.
use vstd::prelude::*;

use crate::laws::studio::lemma_first_piece;
use crate::number::{all_digits, decimal, parsed, value_of};
use crate::text::digit;
use crate::visual_studio::{
    base_found, bases_found, dir_found, generator_of, generator_of_dir, instances_of_entries,
    subdirs_found, year_in, VsBase, VsDir, VsInstanceView, VsSubdir, VsWhereEntry,
};

verus! {

// ---------------------------------------------------------------------------
// Years
// ---------------------------------------------------------------------------

/// A year from 2000 to 2100 stands at a position of a text.
pub open spec fn year_at(s: Seq<char>, k: int) -> bool {
    &&& 0 <= k <= s.len() - 4
    &&& s[k] == '2'
    &&& {
        ||| s[k + 1] == '0' && '0' <= s[k + 2] <= '9' && '0' <= s[k + 3] <= '9'
        ||| s[k + 1] == '1' && s[k + 2] == '0' && s[k + 3] == '0'
    }
}

/// What four digits write.
proof fn lemma_four(s: Seq<char>)
    requires
        s.len() == 4,
        all_digits(s),
    ensures
        value_of(s) == (s[0] as u32 - 48) * 1000 + (s[1] as u32 - 48) * 100 + (s[2] as u32 - 48)
            * 10 + (s[3] as u32 - 48),
{
    assert(digit(s[0]) && digit(s[1]) && digit(s[2]) && digit(s[3]));
    let c = s.drop_last();
    let b = c.drop_last();
    let a = b.drop_last();
    assert(value_of(a.drop_last()) == 0);
    assert(value_of(a) == value_of(a.drop_last()) * 10 + (s[0] as u32 - 48));
    assert(value_of(b) == value_of(a) * 10 + (s[1] as u32 - 48));
    assert(value_of(c) == value_of(b) * 10 + (s[2] as u32 - 48));
}

/// The start of a text is a year exactly where its digits are those of one.
proof fn lemma_year_here(s: Seq<char>)
    requires
        s.len() >= 4,
    ensures
        year_at(s, 0) <==> all_digits(s.take(4)) && 2000 <= value_of(s.take(4)) <= 2100,
        year_at(s, 0) ==> value_of(s.take(4)) == 2000 + (s[1] as u32 - 48) * 100 + (s[2] as u32
            - 48) * 10 + (s[3] as u32 - 48),
{
    let t = s.take(4);
    if year_at(s, 0) {
        assert forall|i: int| 0 <= i < t.len() implies digit(#[trigger] t[i]) by {
            assert(t[i] == s[i]);
        }
    }
    if all_digits(t) {
        lemma_four(t);
        assert(digit(t[0]) && digit(t[1]) && digit(t[2]) && digit(t[3]));
    }
}

/// The first year that stands in a text is found wherever it stands, whatever digits come
/// before it.
pub proof fn law_year_anywhere(s: Seq<char>, k: int)
    requires
        year_at(s, k),
        forall|j: int| 0 <= j < k ==> !#[trigger] year_at(s, j),
    ensures
        year_in(s) matches Some(y) && y == 2000 + (s[k + 1] as u32 - 48) * 100 + (s[k + 2] as u32
            - 48) * 10 + (s[k + 3] as u32 - 48),
    decreases k,
{
    lemma_year_here(s);
    if k > 0 {
        let rest = s.skip(1);
        assert(!year_at(s, 0));
        assert(year_at(rest, k - 1));
        assert forall|j: int| 0 <= j < k - 1 implies !#[trigger] year_at(rest, j) by {
            assert(!year_at(s, j + 1));
        }
        law_year_anywhere(rest, k - 1);
    }
}

/// A text in which no year stands has none.
pub proof fn law_no_year(s: Seq<char>)
    requires
        forall|j: int| 0 <= j < s.len() ==> !#[trigger] year_at(s, j),
    ensures
        year_in(s) is None,
    decreases s.len(),
{
    if s.len() >= 4 {
        lemma_year_here(s);
        let rest = s.skip(1);
        assert(!year_at(s, 0));
        assert forall|j: int| 0 <= j < rest.len() implies !#[trigger] year_at(rest, j) by {
            assert(!year_at(s, j + 1));
        }
        law_no_year(rest);
    }
}

// ---------------------------------------------------------------------------
// Generators
// ---------------------------------------------------------------------------

/// An installation has a generator exactly where its version starts with a number, up to the
/// first dot; the generator names that number and, where its name holds a year, that year.
pub proof fn law_generator_parts(head: Seq<char>, rest: Seq<char>, name: Seq<char>)
    requires
        !head.contains('.'),
    ensures
        generator_of(head + seq!['.'] + rest, name) is Some <==> parsed(head) is Some,
        generator_of(head, name) == generator_of(head + seq!['.'] + rest, name),
        parsed(head) matches Some(major) ==> (year_in(name) matches Some(year) ==> generator_of(
            head,
            name,
        ) == Some("Visual Studio "@ + decimal(major as nat) + " "@ + decimal(year as nat))),
{
    lemma_first_piece(head, '.', rest);
}

/// A directory has no generator where its name is not a number.
pub proof fn law_dir_without_number(name: Seq<char>)
    requires
        parsed(name) is None,
    ensures
        generator_of_dir(name) is None,
{
}

// ---------------------------------------------------------------------------
// Installations
// ---------------------------------------------------------------------------

/// Whether an installation is what an entry of `vswhere` reports.
pub open spec fn reports(e: VsWhereEntry, t: VsInstanceView) -> bool {
    &&& e.path@.len() > 0
    &&& t.root == e.path@
    &&& match (e.version, e.display_name) {
        (Some(v), Some(d)) => t.generator == generator_of(v@, d@),
        (Some(v), None) => t.generator == generator_of(v@, Seq::empty()),
        (None, _) => t.generator is None,
    }
}

/// Entries are taken one by one: one with a path adds what it reports, one without adds nothing.
pub proof fn law_reported_in_order(entries: Seq<VsWhereEntry>, e: VsWhereEntry, t: VsInstanceView)
    ensures
        instances_of_entries(Seq::empty()) == Seq::<VsInstanceView>::empty(),
        e.path@.len() == 0 ==> instances_of_entries(entries.push(e)) == instances_of_entries(
            entries,
        ),
        reports(e, t) ==> instances_of_entries(entries.push(e)) == instances_of_entries(
            entries,
        ).push(t),
{
    assert(entries.push(e).drop_last() =~= entries);
}

/// Whether an installation stands at a directory or directly below it.
pub open spec fn stands_at(d: VsDir, around: Seq<char>, t: VsInstanceView) -> bool {
    &&& d.is_dir
    &&& {
        ||| d.has_tools && t.root == d.path@ && t.generator == generator_of_dir(around)
        ||| !d.has_tools && d.children is Some && t.generator == generator_of_dir(d.name@)
            && exists|c: int|
            0 <= c < d.children->0@.len() && (#[trigger] d.children->0@[c]).has_tools && t.root
                == d.children->0@[c].path@
    }
}

proof fn lemma_subdir_real(dirs: Seq<VsSubdir>, around: Seq<char>, t: VsInstanceView) -> (c: int)
    requires
        subdirs_found(dirs, around).contains(t),
    ensures
        0 <= c < dirs.len(),
        dirs[c].has_tools,
        t.root == dirs[c].path@,
        t.generator == generator_of_dir(around),
    decreases dirs.len(),
{
    let all = subdirs_found(dirs, around);
    let k = choose|k: int| 0 <= k < all.len() && all[k] == t;
    let init = dirs.drop_last();
    let before = subdirs_found(init, around);
    if k < before.len() {
        assert(before[k] == t);
        let c = lemma_subdir_real(init, around, t);
        assert(init[c] == dirs[c]);
        c
    } else {
        dirs.len() - 1
    }
}

proof fn lemma_base_real(dirs: Seq<VsDir>, around: Seq<char>, t: VsInstanceView) -> (d: int)
    requires
        base_found(dirs, around).contains(t),
    ensures
        0 <= d < dirs.len(),
        stands_at(dirs[d], around, t),
    decreases dirs.len(),
{
    let all = base_found(dirs, around);
    let k = choose|k: int| 0 <= k < all.len() && all[k] == t;
    let init = dirs.drop_last();
    let before = base_found(init, around);
    let last = dirs[dirs.len() - 1];
    if k < before.len() {
        assert(before[k] == t);
        let d = lemma_base_real(init, around, t);
        assert(init[d] == dirs[d]);
        d
    } else {
        let here = dir_found(last, around);
        assert(here[k - before.len()] == t);
        if !last.has_tools {
            let children = last.children->0@;
            assert(subdirs_found(children, last.name@).contains(t));
            let c = lemma_subdir_real(children, last.name@, t);
            assert(children[c].has_tools);
        }
        dirs.len() - 1
    }
}

/// What is found on disk stands there: it has the compilers of Visual Studio and the generator
/// that the directory around it tells.
pub proof fn law_on_disk_real(bases: Seq<VsBase>, t: VsInstanceView)
    requires
        bases_found(bases).contains(t),
    ensures
        exists|b: int, d: int|
            {
                &&& 0 <= b < bases.len()
                &&& bases[b].dirs is Some
                &&& 0 <= d < bases[b].dirs->0@.len()
                &&& #[trigger] stands_at(bases[b].dirs->0@[d], bases[b].name@, t)
            },
    decreases bases.len(),
{
    let all = bases_found(bases);
    let k = choose|k: int| 0 <= k < all.len() && all[k] == t;
    let init = bases.drop_last();
    let before = bases_found(init);
    let n = bases.len() - 1;
    if k < before.len() {
        assert(before[k] == t);
        law_on_disk_real(init, t);
        let (b, d) = choose|b: int, d: int|
            {
                &&& 0 <= b < init.len()
                &&& init[b].dirs is Some
                &&& 0 <= d < init[b].dirs->0@.len()
                &&& #[trigger] stands_at(init[b].dirs->0@[d], init[b].name@, t)
            };
        assert(init[b] == bases[b]);
        assert(stands_at(bases[b].dirs->0@[d], bases[b].name@, t));
    } else {
        let last = bases[n];
        let here = base_found(last.dirs->0@, last.name@);
        assert(here[k - before.len()] == t);
        let d = lemma_base_real(last.dirs->0@, last.name@, t);
        assert(stands_at(bases[n].dirs->0@[d], bases[n].name@, t));
    }
}

} // verus!
