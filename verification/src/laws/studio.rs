//! Laws on Visual Studio: generators, the names of hosts and targets, and installations.
use vstd::prelude::*;

use crate::number::{all_digits, decimal, lemma_decimal_parses, lemma_decimal_value};
use crate::probe::{latest_at, version_dir, MsvcVersion};
use crate::text::{contains_text, digit, lemma_split_nonempty, split_on};
use crate::version::{key_le, lemma_key_order, version_numbers};
use crate::visual_studio::{
    arch_label_of, base_found, bases_found, cmake_arch_of, dir_found, generator_of,
    generator_of_dir, host_label_of, host_toolset_of, instance_of_entry, instances_of_entries,
    msvc_name_of, subdirs_found, year_in, VsBase, VsDir, VsInstanceView, VsSubdir, VsWhereEntry,
};

verus! {

// ---------------------------------------------------------------------------
// Generators
// ---------------------------------------------------------------------------

/// The first piece of a split is what stands before the first copy of the character.
pub proof fn lemma_first_piece(a: Seq<char>, c: char, rest: Seq<char>)
    requires
        !a.contains(c),
    ensures
        split_on(a, c) == seq![a],
        split_on(a + seq![c] + rest, c)[0] == a,
    decreases rest.len(),
{
    lemma_whole_piece(a, c);
    let s = a + seq![c] + rest;
    if rest.len() == 0 {
        assert(s.drop_last() =~= a);
        assert(s.last() == c);
        assert(split_on(s, c) =~= seq![a].push(Seq::<char>::empty()));
    } else {
        let init = rest.drop_last();
        lemma_first_piece(a, c, init);
        assert(s.drop_last() =~= a + seq![c] + init);
        lemma_two_pieces(a, c, init);
    }
}

/// A text without the character is one piece.
proof fn lemma_whole_piece(a: Seq<char>, c: char)
    requires
        !a.contains(c),
    ensures
        split_on(a, c) == seq![a],
    decreases a.len(),
{
    if a.len() > 0 {
        let init = a.drop_last();
        assert(a[a.len() - 1] != c) by {
            if a[a.len() - 1] == c {
                assert(a.contains(c));
            }
        }
        assert(!init.contains(c)) by {
            if init.contains(c) {
                let k = choose|k: int| 0 <= k < init.len() && init[k] == c;
                assert(a[k] == c);
            }
        }
        lemma_whole_piece(init, c);
        assert(init.push(a.last()) =~= a);
        assert(split_on(a, c) =~= seq![a]);
    } else {
        assert(a =~= Seq::<char>::empty());
        assert(split_on(a, c) =~= seq![a]);
    }
}

/// A text with the character has at least two pieces.
proof fn lemma_two_pieces(a: Seq<char>, c: char, rest: Seq<char>)
    ensures
        split_on(a + seq![c] + rest, c).len() >= 2,
    decreases rest.len(),
{
    let s = a + seq![c] + rest;
    if rest.len() == 0 {
        assert(s.drop_last() =~= a);
        lemma_split_nonempty(a, c);
    } else {
        assert(s.drop_last() =~= a + seq![c] + rest.drop_last());
        lemma_two_pieces(a, c, rest.drop_last());
    }
}

/// A notation has no dots.
proof fn lemma_no_dot(n: u64)
    ensures
        !decimal(n as nat).contains('.'),
{
    lemma_decimal_parses(n);
    let d = decimal(n as nat);
    if d.contains('.') {
        let k = choose|k: int| 0 <= k < d.len() && d[k] == '.';
        assert(digit(d[k]));
    }
}

/// How long a notation is.
proof fn lemma_notation_len(n: nat)
    ensures
        n < 10 ==> decimal(n).len() == 1,
        10 <= n < 100 ==> decimal(n).len() == 2,
        100 <= n < 1000 ==> decimal(n).len() == 3,
        1000 <= n < 10000 ==> decimal(n).len() == 4,
        n >= 10000 ==> decimal(n).len() >= 5,
{
    reveal_with_fuel(decimal, 5);
    if n >= 10000 {
        lemma_decimal_value(n / 10 / 10 / 10 / 10);
    }
}

/// Text without digits holds no year, and is passed over.
proof fn lemma_year_behind(before: Seq<char>, s: Seq<char>)
    requires
        forall|i: int| 0 <= i < before.len() ==> !digit(#[trigger] before[i]),
    ensures
        year_in(before + s) == year_in(s),
    decreases before.len(),
{
    let all = before + s;
    if before.len() == 0 {
        assert(all =~= s);
    } else {
        let rest = before.skip(1);
        assert(!digit(before[0]));
        assert forall|i: int| 0 <= i < rest.len() implies !digit(#[trigger] rest[i]) by {
            assert(rest[i] == before[i + 1]);
        }
        assert(all.skip(1) =~= rest + s);
        lemma_year_behind(rest, s);
        if all.len() >= 4 {
            assert(!all_digits(all.take(4))) by {
                assert(all.take(4)[0] == before[0]);
            }
        } else {
            assert((rest + s).len() < 4);
        }
    }
}

/// The year in a name is the first that stands there.
pub proof fn law_year(before: Seq<char>, year: u64, after: Seq<char>)
    requires
        forall|i: int| 0 <= i < before.len() ==> !digit(#[trigger] before[i]),
        2000 <= year <= 2100,
    ensures
        year_in(before + decimal(year as nat) + after) == Some(year),
        year_in(before) is None,
{
    let d = decimal(year as nat);
    let none = Seq::<char>::empty();
    lemma_notation_len(year as nat);
    lemma_decimal_value(year as nat);
    assert(before + d + after =~= before + (d + after));
    lemma_year_behind(before, d + after);
    assert((d + after).take(4) =~= d);
    lemma_year_behind(before, none);
    assert(before + none =~= before);
}

/// The year of a major version: the known ones, and for others 2008 years after the version.
pub open spec fn known_year(major: u64) -> int {
    if major == 15 {
        2017
    } else if major == 16 {
        2019
    } else if major == 17 {
        2022
    } else if major == 18 {
        2026
    } else if major == 19 {
        2029
    } else {
        2008 + major
    }
}

/// The generator of an installation carries the major version that its version starts with, and
/// the year in its name or, where that has none, the year of the major version.
pub proof fn law_generator(
    major: u64,
    rest: Seq<char>,
    before: Seq<char>,
    year: u64,
    after: Seq<char>,
)
    requires
        forall|i: int| 0 <= i < before.len() ==> !digit(#[trigger] before[i]),
        2000 <= year <= 2100,
    ensures
        generator_of(
            decimal(major as nat) + seq!['.'] + rest,
            before + decimal(year as nat) + after,
        ) == Some("Visual Studio "@ + decimal(major as nat) + " "@ + decimal(year as nat)),
        generator_of(decimal(major as nat), before + decimal(year as nat) + after) == Some(
            "Visual Studio "@ + decimal(major as nat) + " "@ + decimal(year as nat),
        ),
        major <= u64::MAX - 2008 ==> generator_of(
            decimal(major as nat) + seq!['.'] + rest,
            before,
        ) == Some("Visual Studio "@ + decimal(major as nat) + " "@ + decimal(known_year(major) as nat)),
{
    lemma_no_dot(major);
    lemma_first_piece(decimal(major as nat), '.', rest);
    lemma_decimal_parses(major);
    law_year(before, year, after);
}

/// A version that does not start with a digit or a plus sign has no generator.
pub proof fn law_no_generator(version: Seq<char>, name: Seq<char>)
    requires
        version.len() == 0 || (!digit(version[0]) && version[0] != '+'),
    ensures
        generator_of(version, name) is None,
{
    lemma_first_piece_starts(version, '.');
    let first = split_on(version, '.')[0];
    if first.len() > 0 {
        assert(first[0] == version[0]);
    }
}

/// The first piece of a split starts the text.
proof fn lemma_first_piece_starts(s: Seq<char>, c: char)
    ensures
        split_on(s, c)[0].len() > 0 ==> s.len() > 0 && split_on(s, c)[0][0] == s[0],
    decreases s.len(),
{
    if s.len() > 0 {
        let init = s.drop_last();
        lemma_first_piece_starts(init, c);
        lemma_split_nonempty(init, c);
        let before = split_on(init, c);
        if s.last() != c && before.len() == 1 {
            lemma_one_piece(init, c);
        }
    }
}

/// A single piece is the whole text.
proof fn lemma_one_piece(s: Seq<char>, c: char)
    requires
        split_on(s, c).len() == 1,
    ensures
        split_on(s, c)[0] == s,
{
    crate::text::lemma_split_joined(s, c);
}

/// Below a directory with a known year the generator has that year and its major version, below
/// one with another number of four digits there is none, and below one with any other number
/// that is the major version.
pub proof fn law_generator_of_dir(n: u64)
    ensures
        15 <= n <= 19 ==> generator_of_dir(decimal(known_year(n) as nat)) == Some(
            "Visual Studio "@ + decimal(n as nat) + " "@ + decimal(known_year(n) as nat),
        ),
        1000 <= n <= 9999 && n != 2017 && n != 2019 && n != 2022 && n != 2026 && n != 2029
            ==> generator_of_dir(decimal(n as nat)) is None,
        (n < 1000 || 9999 < n <= u64::MAX - 2008) ==> generator_of_dir(decimal(n as nat)) == Some(
            "Visual Studio "@ + decimal(n as nat) + " "@ + decimal(known_year(n) as nat),
        ),
{
    lemma_notation_len(n as nat);
    lemma_decimal_parses(n);
    if 15 <= n <= 19 {
        let y = known_year(n) as u64;
        lemma_notation_len(y as nat);
        lemma_decimal_parses(y);
    }
}

/// Below a directory whose name does not start with a digit or a plus sign there is no generator.
pub proof fn law_no_generator_of_dir(name: Seq<char>)
    requires
        name.len() == 0 || (!digit(name[0]) && name[0] != '+'),
    ensures
        generator_of_dir(name) is None,
{
    if name.len() > 0 {
        assert(!digit(name[0]));
    }
}

// ---------------------------------------------------------------------------
// Hosts and targets
// ---------------------------------------------------------------------------

/// The name of a compiler tells its host and its target, once where they are the same. `x64` is
/// `amd64` in it, and any other architecture goes by its own name. The host may have `host`
/// before it.
pub proof fn law_compiler_name(host: Seq<char>, target: Seq<char>)
    requires
        !"host"@.is_prefix_of(host),
    ensures
        ({
            let h = if host == "x64"@ {
                "amd64"@
            } else {
                host
            };
            let t = if target == "x64"@ {
                "amd64"@
            } else {
                target
            };
            let named = msvc_name_of(host_label_of("host"@ + host), arch_label_of(target));
            &&& h == t ==> named == "MSVC "@ + h
            &&& h != t ==> named == "MSVC "@ + h + "_"@ + t
            &&& host_label_of("host"@ + host) == h
            &&& host_label_of(host) == h
        }),
{
    let full = "host"@ + host;
    assert(full.subrange(0, "host"@.len() as int) =~= "host"@);
    assert(full.skip("host"@.len() as int) =~= host);
}

/// CMake knows three targets by names of its own, and the others by their directories.
pub proof fn law_platform(lower: Seq<char>, target: Seq<char>)
    ensures
        cmake_arch_of("x64"@, target) == "x64"@,
        cmake_arch_of("x86"@, target) == "Win32"@,
        cmake_arch_of("arm64"@, target) == "ARM64"@,
        lower != "x64"@ && lower != "x86"@ && lower != "arm64"@ ==> cmake_arch_of(lower, target)
            == target,
        host_toolset_of(lower) == if contains_text(lower, "x86"@) {
            Some("host=x86"@)
        } else {
            None
        },
{
    reveal_strlit("x64");
    reveal_strlit("x86");
    reveal_strlit("arm64");
    assert("x64"@[1] == '6' && "x86"@[1] == '8' && "arm64"@.len() == 5);
}

// ---------------------------------------------------------------------------
// Installations
// ---------------------------------------------------------------------------

/// What one of two lists holds, both together hold.
proof fn lemma_either(a: Seq<VsInstanceView>, b: Seq<VsInstanceView>, t: VsInstanceView)
    ensures
        a.contains(t) || b.contains(t) <==> (a + b).contains(t),
        forall|x: VsInstanceView| a.contains(t) || x == t <==> #[trigger] a.push(x).contains(t),
{
    let c = a + b;
    if a.contains(t) {
        let i = choose|i: int| 0 <= i < a.len() && a[i] == t;
        assert(c[i] == t);
    }
    if b.contains(t) {
        let i = choose|i: int| 0 <= i < b.len() && b[i] == t;
        assert(c[a.len() + i] == t);
    }
    if c.contains(t) {
        let i = choose|i: int| 0 <= i < c.len() && c[i] == t;
        if i < a.len() {
            assert(a[i] == t);
        } else {
            assert(b[i - a.len()] == t);
        }
    }
    assert forall|x: VsInstanceView| a.contains(t) || x == t <==> #[trigger] a.push(x).contains(
        t,
    ) by {
        let d = a.push(x);
        assert(d[a.len() as int] == x);
        if a.contains(t) {
            let i = choose|i: int| 0 <= i < a.len() && a[i] == t;
            assert(d[i] == t);
        }
        if d.contains(t) {
            let i = choose|i: int| 0 <= i < d.len() && d[i] == t;
            if i < a.len() {
                assert(a[i] == t);
            }
        }
    }
}

/// Every installation that `vswhere` reports with a path is taken, with that path and with the
/// generator of its version and display name. Without a version it has none.
pub proof fn law_reported(entries: Seq<VsWhereEntry>, i: int)
    requires
        0 <= i < entries.len(),
        entries[i].path@.len() > 0,
    ensures
        ({
            let e = entries[i];
            let found = instances_of_entries(entries);
            let none = Seq::<char>::empty();
            match (e.version, e.display_name) {
                (Some(v), Some(d)) => found.contains(
                    VsInstanceView { root: e.path@, generator: generator_of(v@, d@) },
                ),
                (Some(v), None) => found.contains(
                    VsInstanceView { root: e.path@, generator: generator_of(v@, none) },
                ),
                (None, _) => found.contains(VsInstanceView { root: e.path@, generator: None }),
            }
        }),
{
    lemma_reported(entries, i);
}

proof fn lemma_reported(entries: Seq<VsWhereEntry>, i: int)
    requires
        0 <= i < entries.len(),
        entries[i].path@.len() > 0,
    ensures
        instances_of_entries(entries).contains(instance_of_entry(entries[i])),
    decreases entries.len(),
{
    let init = entries.drop_last();
    let before = instances_of_entries(init);
    let t = instance_of_entry(entries[i]);
    lemma_either(before, before, t);
    if i < init.len() {
        assert(init[i] == entries[i]);
        lemma_reported(init, i);
    }
    assert(before.push(instance_of_entry(entries.last())).contains(t));
}

/// What is taken from `vswhere` was reported by it, with a path.
pub proof fn law_reported_real(entries: Seq<VsWhereEntry>, t: VsInstanceView)
    requires
        instances_of_entries(entries).contains(t),
    ensures
        t.root.len() > 0,
        exists|i: int| 0 <= i < entries.len() && (#[trigger] entries[i]).path@ == t.root,
    decreases entries.len(),
{
    if entries.len() > 0 {
        let init = entries.drop_last();
        let before = instances_of_entries(init);
        let last = entries[entries.len() - 1];
        lemma_either(before, before, t);
        if last.path@.len() > 0 {
            assert(before.push(instance_of_entry(last)).contains(t));
        }
        if before.contains(t) {
            law_reported_real(init, t);
            let i = choose|i: int| 0 <= i < init.len() && (#[trigger] init[i]).path@ == t.root;
            assert(entries[i] == init[i]);
        } else {
            assert(last.path@ == t.root);
        }
    }
}

proof fn lemma_subdir(dirs: Seq<VsSubdir>, i: int, around: Seq<char>)
    requires
        0 <= i < dirs.len(),
        dirs[i].has_tools,
    ensures
        subdirs_found(dirs, around).contains(
            VsInstanceView { root: dirs[i].path@, generator: generator_of_dir(around) },
        ),
    decreases dirs.len(),
{
    let init = dirs.drop_last();
    let before = subdirs_found(init, around);
    let t = VsInstanceView { root: dirs[i].path@, generator: generator_of_dir(around) };
    let x = VsInstanceView { root: dirs.last().path@, generator: generator_of_dir(around) };
    lemma_either(before, before, t);
    if i < init.len() {
        assert(init[i] == dirs[i]);
        lemma_subdir(init, i, around);
    }
    assert(before.push(x).contains(t));
}

proof fn lemma_dir(dirs: Seq<VsDir>, d: int, around: Seq<char>, t: VsInstanceView)
    requires
        0 <= d < dirs.len(),
        dir_found(dirs[d], around).contains(t),
    ensures
        base_found(dirs, around).contains(t),
    decreases dirs.len(),
{
    let init = dirs.drop_last();
    lemma_either(base_found(init, around), dir_found(dirs.last(), around), t);
    if d < init.len() {
        assert(init[d] == dirs[d]);
        lemma_dir(init, d, around, t);
    }
}

proof fn lemma_base(bases: Seq<VsBase>, b: int, t: VsInstanceView)
    requires
        0 <= b < bases.len(),
        bases[b].dirs is Some,
        base_found(bases[b].dirs->0@, bases[b].name@).contains(t),
    ensures
        bases_found(bases).contains(t),
    decreases bases.len(),
{
    let init = bases.drop_last();
    let last = bases.last();
    let here = match last.dirs {
        Some(dirs) => base_found(dirs@, last.name@),
        None => Seq::<VsInstanceView>::empty(),
    };
    lemma_either(bases_found(init), here, t);
    if b < init.len() {
        assert(init[b] == bases[b]);
        lemma_base(init, b, t);
    }
}

/// On disk an installation is found directly in a base directory, with the generator that the
/// base directory's name tells, or one level below, with that which the directory around it
/// tells. None is missed.
pub proof fn law_on_disk(bases: Seq<VsBase>, b: int, d: int, c: int)
    requires
        0 <= b < bases.len(),
        bases[b].dirs is Some,
        0 <= d < bases[b].dirs->0@.len(),
        bases[b].dirs->0@[d].is_dir,
    ensures
        ({
            let dir = bases[b].dirs->0@[d];
            &&& dir.has_tools ==> bases_found(bases).contains(
                VsInstanceView {
                    root: dir.path@,
                    generator: generator_of_dir(bases[b].name@),
                },
            )
            &&& !dir.has_tools && dir.children is Some && 0 <= c < dir.children->0@.len()
                && dir.children->0@[c].has_tools ==> bases_found(bases).contains(
                VsInstanceView {
                    root: dir.children->0@[c].path@,
                    generator: generator_of_dir(dir.name@),
                },
            )
        }),
{
    let base = bases[b];
    let dirs = base.dirs->0@;
    let dir = dirs[d];
    if dir.has_tools {
        let t = VsInstanceView { root: dir.path@, generator: generator_of_dir(base.name@) };
        assert(dir_found(dir, base.name@)[0] == t);
        lemma_dir(dirs, d, base.name@, t);
        lemma_base(bases, b, t);
    } else if dir.children is Some && 0 <= c < dir.children->0@.len()
        && dir.children->0@[c].has_tools {
        let t = VsInstanceView {
            root: dir.children->0@[c].path@,
            generator: generator_of_dir(dir.name@),
        };
        lemma_subdir(dir.children->0@, c, dir.name@);
        lemma_dir(dirs, d, base.name@, t);
        lemma_base(bases, b, t);
    }
}

// ---------------------------------------------------------------------------
// The latest version
// ---------------------------------------------------------------------------

/// A directory for a version: one whose name starts with a digit.
pub open spec fn names_version(v: MsvcVersion) -> bool {
    v.is_dir && v.name@.len() > 0 && '0' <= v.name@[0] <= '9'
}

/// Where there are directories for versions, one of them is the latest: no other is later by its
/// numbers, and none behind it is as late.
pub proof fn law_latest(versions: Seq<MsvcVersion>, k: int)
    requires
        0 <= k < versions.len(),
        names_version(versions[k]),
    ensures
        exists|i: int| latest_at(versions, i),
        forall|i: int| #[trigger]
            latest_at(versions, i) ==> names_version(versions[i]) && key_le(
                version_numbers(versions[k].name@),
                version_numbers(versions[i].name@),
            ) && (k > i ==> !key_le(
                version_numbers(versions[i].name@),
                version_numbers(versions[k].name@),
            )),
{
    assert(version_dir(versions[k]));
    lemma_some_latest(versions, k);
}

proof fn lemma_some_latest(versions: Seq<MsvcVersion>, k: int)
    requires
        0 <= k < versions.len(),
        version_dir(versions[k]),
    ensures
        exists|i: int| latest_at(versions, i),
    decreases versions.len(),
{
    let n = versions.len() - 1;
    let init = versions.drop_last();
    let last = versions[n];
    let x = version_numbers(last.name@);
    lemma_key_order(x, x, x);
    if exists|j: int| 0 <= j < init.len() && version_dir(#[trigger] init[j]) {
        let j = choose|j: int| 0 <= j < init.len() && version_dir(#[trigger] init[j]);
        lemma_some_latest(init, j);
        let b = choose|b: int| latest_at(init, b);
        let y = version_numbers(init[b].name@);
        assert(init[b] == versions[b]);
        lemma_key_order(y, x, x);
        if version_dir(last) && key_le(y, x) {
            assert forall|m: int|
                0 <= m < versions.len() && version_dir(#[trigger] versions[m]) implies key_le(
                version_numbers(versions[m].name@),
                x,
            ) && (m > n ==> !key_le(x, version_numbers(versions[m].name@))) by {
                if m < n {
                    assert(init[m] == versions[m]);
                    lemma_key_order(version_numbers(versions[m].name@), y, x);
                }
            }
            assert(latest_at(versions, n));
        } else {
            assert forall|m: int|
                0 <= m < versions.len() && version_dir(#[trigger] versions[m]) implies key_le(
                version_numbers(versions[m].name@),
                y,
            ) && (m > b ==> !key_le(y, version_numbers(versions[m].name@))) by {
                if m < n {
                    assert(init[m] == versions[m]);
                }
            }
            assert(latest_at(versions, b));
        }
    } else {
        assert forall|m: int|
            0 <= m < versions.len() && version_dir(#[trigger] versions[m]) implies m == n by {
            if m < n {
                assert(init[m] == versions[m]);
            }
        }
        assert(latest_at(versions, n));
    }
}

} // verus!
