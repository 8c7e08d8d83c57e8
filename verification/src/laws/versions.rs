//! Laws on versions and on compilers by their names and output.
use vstd::prelude::*;

use crate::laws::targets::lemma_first_is;
use crate::laws::text::{blank, law_tight_stays, law_trimmed, tight};
use crate::number::{all_digits, decimal, lemma_decimal_parses, parsed};
use crate::text::{
    contains_text, digit, first_some, joined, left_trimmed, lemma_first_at, lemma_joined_split,
    lines_of, occurs_at, trimmed, white, without_trailing, word_prefix,
};
use crate::vendor::{cxx_sibling_of, kind_of_stem, target_in, vendor_version, Vendor};
use crate::version::{
    clang_line_version, gcc_line_version, key_le, line_target, run_len, version_char, version_in,
    version_numbers, version_token,
};

verus! {

// ---------------------------------------------------------------------------
// Versions of three numbers
// ---------------------------------------------------------------------------

/// Numbers in digits, at least one.
pub open spec fn numbers(parts: Seq<Seq<char>>) -> bool {
    &&& parts.len() > 0
    &&& forall|i: int|
        0 <= i < parts.len() ==> (#[trigger] parts[i]).len() > 0 && all_digits(parts[i])
}

/// Nothing but dots.
pub open spec fn only_dots(s: Seq<char>) -> bool {
    forall|i: int| 0 <= i < s.len() ==> #[trigger] s[i] == '.'
}

/// Text without digits is passed over.
proof fn lemma_no_digits(before: Seq<char>, s: Seq<char>)
    requires
        forall|i: int| 0 <= i < before.len() ==> !digit(#[trigger] before[i]),
    ensures
        version_in(before + s) == version_in(s),
    decreases before.len(),
{
    let all = before + s;
    if before.len() == 0 {
        assert(all =~= s);
    } else {
        let rest = before.skip(1);
        assert(all[0] == before[0]);
        assert forall|i: int| 0 <= i < rest.len() implies !digit(#[trigger] rest[i]) by {
            assert(rest[i] == before[i + 1]);
        }
        assert(all.skip(1) =~= rest + s);
        lemma_no_digits(rest, s);
    }
}

/// A run ends where its characters do.
proof fn lemma_run_ends(run: Seq<char>, after: Seq<char>)
    requires
        forall|i: int| 0 <= i < run.len() ==> version_char(#[trigger] run[i]),
        after.len() == 0 || !version_char(after[0]),
    ensures
        run_len(run + after) == run.len(),
    decreases run.len(),
{
    let all = run + after;
    if run.len() == 0 {
        assert(all =~= after);
    } else {
        let rest = run.skip(1);
        assert(all[0] == run[0]);
        assert forall|i: int| 0 <= i < rest.len() implies version_char(#[trigger] rest[i]) by {
            assert(rest[i] == run[i + 1]);
        }
        assert(all.skip(1) =~= rest + after);
        lemma_run_ends(rest, after);
    }
}

/// Numbers with dots between them start and end with digits and have nothing but digits and
/// dots.
proof fn lemma_numbers_joined(parts: Seq<Seq<char>>)
    requires
        numbers(parts),
    ensures
        joined(parts, seq!['.']).len() > 0,
        digit(joined(parts, seq!['.'])[0]),
        digit(joined(parts, seq!['.']).last()),
        forall|i: int|
            0 <= i < joined(parts, seq!['.']).len() ==> version_char(
                #[trigger] joined(parts, seq!['.'])[i],
            ),
    decreases parts.len(),
{
    let all = joined(parts, seq!['.']);
    let last = parts[parts.len() - 1];
    assert(last.len() > 0 && all_digits(last));
    assert(digit(last[0]) && digit(last[last.len() - 1]));
    if parts.len() == 1 {
        assert(all == last);
    } else {
        let init = parts.drop_last();
        assert forall|i: int| 0 <= i < init.len() implies (#[trigger] init[i]).len() > 0
            && all_digits(init[i]) by {
            assert(init[i] == parts[i]);
        }
        lemma_numbers_joined(init);
        let head = joined(init, seq!['.']);
        assert(all == head + seq!['.'] + last);
        assert forall|i: int| 0 <= i < all.len() implies version_char(#[trigger] all[i]) by {
            if i < head.len() {
                assert(all[i] == head[i]);
            } else if i > head.len() {
                assert(all[i] == last[i - head.len() - 1]);
            }
        }
        assert(all[0] == head[0]);
        assert(all.last() == last[last.len() - 1]);
    }
}

/// Dots at the end go.
proof fn lemma_dots_go(s: Seq<char>, dots: Seq<char>)
    requires
        only_dots(dots),
        s.len() > 0,
        s.last() != '.',
    ensures
        without_trailing(s + dots, |x: char| x == '.') == s,
    decreases dots.len(),
{
    let all = s + dots;
    if dots.len() == 0 {
        assert(all =~= s);
    } else {
        let rest = dots.drop_last();
        assert(all.last() == dots[dots.len() - 1]);
        assert forall|i: int| 0 <= i < rest.len() implies #[trigger] rest[i] == '.' by {
            assert(rest[i] == dots[i]);
        }
        assert(all.drop_last() =~= s + rest);
        lemma_dots_go(s, rest);
    }
}

/// The first run of numbers with dots between them decides. Where it has three numbers or more,
/// with dots behind it or not, its first three are the version; where it has fewer, the search
/// goes on behind it.
pub proof fn law_version_found(
    before: Seq<char>,
    parts: Seq<Seq<char>>,
    dots: Seq<char>,
    after: Seq<char>,
)
    requires
        forall|i: int| 0 <= i < before.len() ==> !digit(#[trigger] before[i]),
        numbers(parts),
        only_dots(dots),
        after.len() == 0 || (!digit(after[0]) && after[0] != '.'),
    ensures
        parts.len() >= 3 ==> version_in(before + (joined(parts, seq!['.']) + dots) + after) == Some(
            joined(parts.take(3), seq!['.']),
        ),
        parts.len() < 3 ==> version_in(before + (joined(parts, seq!['.']) + dots) + after)
            == version_in(after),
{
    let body = joined(parts, seq!['.']);
    let run = body + dots;
    let s = run + after;
    assert(before + run + after =~= before + s);
    lemma_no_digits(before, s);
    lemma_numbers_joined(parts);
    assert forall|i: int| 0 <= i < run.len() implies version_char(#[trigger] run[i]) by {
        if i < body.len() {
            assert(run[i] == body[i]);
        } else {
            assert(run[i] == dots[i - body.len()]);
        }
    }
    lemma_run_ends(run, after);
    assert(s[0] == body[0]);
    assert(s.take(run.len() as int) =~= run);
    assert(s.skip(run.len() as int) =~= after);
    lemma_dots_go(body, dots);
    assert forall|i: int| 0 <= i < parts.len() implies !(#[trigger] parts[i]).contains('.') by {
        if parts[i].contains('.') {
            let k = choose|k: int| 0 <= k < parts[i].len() && parts[i][k] == '.';
            assert(digit(parts[i][k]));
        }
    }
    lemma_joined_split(parts, '.');
}

/// Text without digits has no version.
pub proof fn law_no_version(s: Seq<char>)
    requires
        forall|i: int| 0 <= i < s.len() ==> !digit(#[trigger] s[i]),
    ensures
        version_in(s) is None,
{
    let none = Seq::<char>::empty();
    lemma_no_digits(s, none);
    assert(s + none =~= s);
}

// ---------------------------------------------------------------------------
// Versions behind a label
// ---------------------------------------------------------------------------

/// A word without white space that does not end in a dot.
pub open spec fn version_word(w: Seq<char>) -> bool {
    &&& w.len() > 0
    &&& w.last() != '.'
    &&& forall|i: int| 0 <= i < w.len() ==> !white(#[trigger] w[i])
}

/// The word up to white space is the word.
proof fn lemma_word(w: Seq<char>, after: Seq<char>)
    requires
        forall|i: int| 0 <= i < w.len() ==> !white(#[trigger] w[i]),
        after.len() == 0 || white(after[0]),
    ensures
        word_prefix(w + after) == w,
    decreases w.len(),
{
    let all = w + after;
    if w.len() == 0 {
        assert(all =~= after);
        assert(word_prefix(all) =~= w);
    } else {
        let rest = w.skip(1);
        assert(all[0] == w[0]);
        assert forall|i: int| 0 <= i < rest.len() implies !white(#[trigger] rest[i]) by {
            assert(rest[i] == w[i + 1]);
        }
        assert(all.skip(1) =~= rest + after);
        lemma_word(rest, after);
        assert(seq![w[0]] + rest =~= w);
    }
}

/// The first word, without the dots behind it, is the version.
pub proof fn law_version_word(w: Seq<char>, dots: Seq<char>, after: Seq<char>)
    requires
        version_word(w),
        only_dots(dots),
        after.len() == 0 || white(after[0]),
    ensures
        version_token(w + dots + after) == Some(w),
{
    let word = w + dots;
    let s = word + after;
    assert forall|i: int| 0 <= i < word.len() implies !white(#[trigger] word[i]) by {
        if i < w.len() {
            assert(word[i] == w[i]);
        } else {
            assert(word[i] == dots[i - w.len()]);
        }
    }
    assert(s[0] == w[0] && !white(w[0]));
    assert(left_trimmed(s) == s);
    lemma_word(word, after);
    lemma_dots_go(w, dots);
}

/// White space before a text that starts without any goes.
proof fn lemma_indent(indent: Seq<char>, s: Seq<char>)
    requires
        blank(indent),
        s.len() > 0,
        !white(s[0]),
    ensures
        left_trimmed(indent + s) == s,
    decreases indent.len(),
{
    let all = indent + s;
    if indent.len() == 0 {
        assert(all =~= s);
    } else {
        let rest = indent.skip(1);
        assert(all[0] == indent[0] && white(indent[0]));
        assert forall|i: int| 0 <= i < rest.len() implies white(#[trigger] rest[i]) by {
            assert(rest[i] == indent[i + 1]);
        }
        assert(all.skip(1) =~= rest + s);
        lemma_indent(rest, s);
    }
}

/// A line of Clang's output names the word behind its first `clang version `.
pub proof fn law_clang_line(
    indent: Seq<char>,
    before: Seq<char>,
    w: Seq<char>,
    dots: Seq<char>,
    after: Seq<char>,
)
    requires
        blank(indent),
        before.len() == 0 || !white(before[0]),
        version_word(w),
        only_dots(dots),
        after.len() == 0 || white(after[0]),
        forall|k: int|
            0 <= k < before.len() ==> !#[trigger] occurs_at(
                before + "clang version "@ + (w + dots + after),
                "clang version "@,
                k,
            ),
    ensures
        clang_line_version(indent + (before + "clang version "@ + (w + dots + after))) == Some(w),
{
    reveal_strlit("clang version ");
    let label = "clang version "@;
    let rest = w + dots + after;
    let l = before + label + rest;
    assert(l[0] == if before.len() > 0 { before[0] } else { label[0] });
    lemma_indent(indent, l);
    let at = before.len() as int;
    assert(l.subrange(at, at + label.len()) =~= label);
    lemma_first_is(l, label, at);
    assert(l.skip(at + label.len()) =~= rest);
    law_version_word(w, dots, after);
}

/// A line of Apple's Clang names the word behind its first `Apple LLVM version `, and a line with
/// neither label names nothing.
pub proof fn law_apple_line(
    indent: Seq<char>,
    before: Seq<char>,
    w: Seq<char>,
    dots: Seq<char>,
    after: Seq<char>,
    line: Seq<char>,
)
    requires
        blank(indent),
        version_word(w),
        only_dots(dots),
        after.len() == 0 || white(after[0]),
        before.len() == 0 || !white(before[0]),
        !contains_text(before + "Apple LLVM version "@ + (w + dots + after), "clang version "@),
        forall|k: int|
            0 <= k < before.len() ==> !#[trigger] occurs_at(
                before + "Apple LLVM version "@ + (w + dots + after),
                "Apple LLVM version "@,
                k,
            ),
        !contains_text(left_trimmed(line), "clang version "@),
        !contains_text(left_trimmed(line), "Apple LLVM version "@),
    ensures
        clang_line_version(indent + (before + "Apple LLVM version "@ + (w + dots + after))) == Some(
            w,
        ),
        clang_line_version(line) is None,
{
    reveal_strlit("Apple LLVM version ");
    let label = "Apple LLVM version "@;
    let rest = w + dots + after;
    let l = before + label + rest;
    let at = before.len() as int;
    assert(l[0] == if before.len() == 0 {
        label[0]
    } else {
        before[0]
    });
    lemma_indent(indent, l);
    lemma_first_at(l, "clang version "@);
    assert(l.subrange(at, at + label.len()) =~= label);
    assert(occurs_at(l, label, at));
    lemma_first_is(l, label, at);
    assert(l.skip(at + label.len()) =~= rest);
    law_version_word(w, dots, after);
    lemma_first_at(left_trimmed(line), "clang version "@);
    lemma_first_at(left_trimmed(line), label);
}

/// A line of GCC's output names the word behind `gcc version ` or `gcc-version ` at its start,
/// and a line that starts with neither names nothing.
pub proof fn law_gcc_line(
    indent: Seq<char>,
    w: Seq<char>,
    dots: Seq<char>,
    after: Seq<char>,
    line: Seq<char>,
)
    requires
        blank(indent),
        version_word(w),
        only_dots(dots),
        after.len() == 0 || white(after[0]),
        !"gcc version "@.is_prefix_of(left_trimmed(line)),
        !"gcc-version "@.is_prefix_of(left_trimmed(line)),
    ensures
        gcc_line_version(indent + ("gcc version "@ + (w + dots + after))) == Some(w),
        gcc_line_version(indent + ("gcc-version "@ + (w + dots + after))) == Some(w),
        gcc_line_version(line) is None,
{
    reveal_strlit("gcc version ");
    reveal_strlit("gcc-version ");
    let a = "gcc version "@;
    let b = "gcc-version "@;
    let rest = w + dots + after;
    assert((a + rest)[0] == a[0] && (b + rest)[0] == b[0]);
    lemma_indent(indent, a + rest);
    lemma_indent(indent, b + rest);
    assert((a + rest).subrange(0, a.len() as int) =~= a);
    assert((b + rest).subrange(0, b.len() as int) =~= b);
    assert((a + rest).skip(a.len() as int) =~= rest);
    assert((b + rest).skip(b.len() as int) =~= rest);
    assert(!a.is_prefix_of(b + rest)) by {
        if a.is_prefix_of(b + rest) {
            assert((b + rest).subrange(0, a.len() as int)[3] == a[3]);
            assert((b + rest)[3] == b[3]);
        }
    }
    law_version_word(w, dots, after);
}

/// A line names the target behind `Target: `, without the white space around it.
pub proof fn law_target_line(before: Seq<char>, target: Seq<char>, after: Seq<char>)
    requires
        blank(before),
        blank(after),
        tight(target),
    ensures
        line_target(before + ("Target: "@ + target) + after) == Some(target),
{
    reveal_strlit("Target: ");
    let label = "Target: "@;
    let l = label + target;
    assert(l[0] == label[0] && l.last() == target.last());
    law_trimmed(before, l, after);
    assert(l.subrange(0, label.len() as int) =~= label);
    assert(l.skip(label.len() as int) =~= target);
    law_tight_stays(target);
}

/// The first element that gives something decides, and nothing comes where none does.
pub proof fn law_first_decides(
    l: Seq<Seq<char>>,
    f: spec_fn(Seq<char>) -> Option<Seq<char>>,
    i: int,
)
    requires
        0 <= i <= l.len(),
        forall|k: int| 0 <= k < i ==> f(#[trigger] l[k]) is None,
    ensures
        i < l.len() && f(l[i]) is Some ==> first_some(l, f) == f(l[i]),
        i == l.len() ==> first_some(l, f) is None,
    decreases i,
{
    if i > 0 {
        assert(f(l[0]) is None);
        let rest = l.skip(1);
        assert forall|k: int| 0 <= k < i - 1 implies f(#[trigger] rest[k]) is None by {
            assert(rest[k] == l[k + 1]);
        }
        law_first_decides(rest, f, i - 1);
        if i < l.len() {
            assert(rest[i - 1] == l[i]);
        }
    }
}

/// The first line on which a compiler names a version decides, and so does the first on which it
/// names a target.
pub proof fn law_vendor_version(vendor: Vendor, text: Seq<char>, i: int)
    requires
        0 <= i < lines_of(text).len(),
    ensures
        vendor == Vendor::Gcc && gcc_line_version(lines_of(text)[i]) is Some && (forall|k: int|
            0 <= k < i ==> gcc_line_version(#[trigger] lines_of(text)[k]) is None)
            ==> vendor_version(vendor, text) == gcc_line_version(lines_of(text)[i]),
        vendor != Vendor::Gcc && clang_line_version(lines_of(text)[i]) is Some && (forall|k: int|
            0 <= k < i ==> clang_line_version(#[trigger] lines_of(text)[k]) is None)
            ==> vendor_version(vendor, text) == clang_line_version(lines_of(text)[i]),
        line_target(lines_of(text)[i]) is Some && (forall|k: int|
            0 <= k < i ==> line_target(#[trigger] lines_of(text)[k]) is None) ==> target_in(text)
            == line_target(lines_of(text)[i]),
{
    let ls = lines_of(text);
    let g = |l: Seq<char>| gcc_line_version(l);
    let c = |l: Seq<char>| clang_line_version(l);
    let t = |l: Seq<char>| line_target(l);
    if forall|k: int| 0 <= k < i ==> gcc_line_version(#[trigger] ls[k]) is None {
        law_first_decides(ls, g, i);
    }
    if forall|k: int| 0 <= k < i ==> clang_line_version(#[trigger] ls[k]) is None {
        law_first_decides(ls, c, i);
    }
    if forall|k: int| 0 <= k < i ==> line_target(#[trigger] ls[k]) is None {
        law_first_decides(ls, t, i);
    }
}

// ---------------------------------------------------------------------------
// Ordering versions
// ---------------------------------------------------------------------------

/// The notations of numbers.
pub open spec fn notations(ns: Seq<u64>) -> Seq<Seq<char>> {
    Seq::new(ns.len(), |i: int| decimal(ns[i] as nat))
}

/// The numbers of a version are those that stand between its dots.
pub proof fn law_version_numbers(ns: Seq<u64>)
    requires
        ns.len() > 0,
    ensures
        version_numbers(joined(notations(ns), seq!['.'])) == ns,
{
    let parts = notations(ns);
    assert forall|i: int| 0 <= i < parts.len() implies !(#[trigger] parts[i]).contains('.')
        && parsed(parts[i]) == Some(ns[i]) by {
        lemma_decimal_parses(ns[i]);
        if parts[i].contains('.') {
            let k = choose|k: int| 0 <= k < parts[i].len() && parts[i][k] == '.';
            assert(digit(parts[i][k]));
        }
    }
    lemma_joined_split(parts, '.');
    assert(version_numbers(joined(parts, seq!['.'])) =~= ns);
}

/// The first number in which two versions differ orders them, and where one is the start of the
/// other, the longer is later.
pub proof fn law_version_order(
    same: Seq<u64>,
    a: u64,
    b: u64,
    x: Seq<u64>,
    y: Seq<u64>,
)
    requires
        a < b,
    ensures
        key_le(same + seq![a] + x, same + seq![b] + y),
        !key_le(same + seq![b] + y, same + seq![a] + x),
        key_le(same, same + x),
        x.len() > 0 ==> !key_le(same + x, same),
    decreases same.len(),
{
    let p = same + seq![a] + x;
    let q = same + seq![b] + y;
    let r = same + x;
    if same.len() > 0 {
        let rest = same.skip(1);
        law_version_order(rest, a, b, x, y);
        assert(p.skip(1) =~= rest + seq![a] + x);
        assert(q.skip(1) =~= rest + seq![b] + y);
        assert(r.skip(1) =~= rest + x);
        assert(p[0] == same[0] && q[0] == same[0] && r[0] == same[0]);
    } else {
        assert(p[0] == a && q[0] == b);
    }
}

// ---------------------------------------------------------------------------
// Names of compilers
// ---------------------------------------------------------------------------

/// GCC goes by its own name, with a version behind it, or with a target before it and a version
/// behind it.
pub proof fn law_gcc_names(target: Seq<char>, version: Seq<char>)
    requires
        !"clang-"@.is_prefix_of(target + "-gcc"@),
        !"clang-"@.is_prefix_of(target + "-gcc-"@ + version),
    ensures
        kind_of_stem("gcc"@) == Some(Vendor::Gcc),
        kind_of_stem("gcc-"@ + version) == Some(Vendor::Gcc),
        kind_of_stem(target + "-gcc"@) == Some(Vendor::Gcc),
        kind_of_stem(target + "-gcc-"@ + version) == Some(Vendor::Gcc),
{
    reveal_strlit("gcc");
    reveal_strlit("gcc-");
    reveal_strlit("-gcc");
    reveal_strlit("-gcc-");
    reveal_strlit("clang");
    reveal_strlit("clang-");
    reveal_strlit("clang-cl");
    reveal_strlit("clang-cl-");
    let a = "gcc-"@ + version;
    let b = target + "-gcc"@;
    let c = target + "-gcc-"@ + version;
    assert(a.subrange(0, 4) =~= "gcc-"@);
    assert(a[0] == 'g');
    assert(b.subrange(b.len() - 4, b.len() as int) =~= "-gcc"@);
    assert(c.subrange(target.len() as int, target.len() as int + 5) =~= "-gcc-"@);
    assert(occurs_at(c, "-gcc-"@, target.len() as int));
    lemma_not_clang("gcc"@);
    lemma_not_clang(a);
    lemma_not_clang(b);
    lemma_not_clang(c);
    assert(b.last() == 'c' && b[b.len() - 4] == '-');
    assert("clang"@.len() == 5 && "clang"@[1] == 'l');
    if b == "clang"@ {
        assert(b[b.len() - 4] == 'l');
    }
    if c == "clang"@ {
        assert(target.len() == 0);
        assert(c[0] == '-');
    }
}

/// A name that does not start as Clang's with a version is not Clang's, but for Clang's own.
proof fn lemma_not_clang(s: Seq<char>)
    requires
        !"clang-"@.is_prefix_of(s),
    ensures
        s != "clang-cl"@,
        !"clang-cl-"@.is_prefix_of(s),
{
    reveal_strlit("clang-");
    reveal_strlit("clang-cl");
    reveal_strlit("clang-cl-");
    if s == "clang-cl"@ {
        assert(s.subrange(0, 6) =~= "clang-"@);
    }
    if "clang-cl-"@.is_prefix_of(s) {
        assert(s.subrange(0, 6) =~= s.subrange(0, 9).subrange(0, 6));
        assert(s.subrange(0, 6) =~= "clang-"@);
    }
}

/// Clang goes by its own name or with a version behind it, and so does its driver for the
/// options of MSVC, which is told apart from it.
pub proof fn law_clang_names(version: Seq<char>)
    ensures
        kind_of_stem("clang"@) == Some(Vendor::Clang),
        kind_of_stem("clang-cl"@) == Some(Vendor::ClangCl),
        kind_of_stem("clang-cl-"@ + version) == Some(Vendor::ClangCl),
        "clang-"@ + version != "clang-cl"@ && !"clang-cl-"@.is_prefix_of("clang-"@ + version)
            ==> kind_of_stem("clang-"@ + version) == Some(Vendor::Clang),
{
    reveal_strlit("clang");
    reveal_strlit("clang-");
    reveal_strlit("clang-cl");
    reveal_strlit("clang-cl-");
    let a = "clang-cl-"@ + version;
    let b = "clang-"@ + version;
    assert(a.subrange(0, 9) =~= "clang-cl-"@);
    assert(b.subrange(0, 6) =~= "clang-"@);
    assert("clang"@.len() == 5 && "clang-cl"@.len() == 8);
}

/// What is called neither after GCC nor after Clang is no compiler.
pub proof fn law_other_names(stem: Seq<char>)
    requires
        !contains_text(stem, "gcc"@),
        stem != "clang"@,
        !"clang-"@.is_prefix_of(stem),
    ensures
        kind_of_stem(stem) is None,
{
    reveal_strlit("gcc");
    reveal_strlit("gcc-");
    reveal_strlit("-gcc");
    reveal_strlit("-gcc-");
    lemma_not_clang(stem);
    let g = "gcc"@;
    if stem == g {
        assert(stem.subrange(0, 3) =~= g);
        assert(occurs_at(stem, g, 0));
    }
    if "gcc-"@.is_prefix_of(stem) {
        assert(stem.subrange(0, 3) =~= stem.subrange(0, 4).subrange(0, 3));
        assert(stem.subrange(0, 3) =~= g);
        assert(occurs_at(stem, g, 0));
    }
    if "-gcc"@.is_suffix_of(stem) {
        let k = stem.len() - 4;
        assert(stem.subrange(k + 1, k + 4) =~= stem.subrange(k, k + 4).subrange(1, 4));
        assert(stem.subrange(k + 1, k + 4) =~= g);
        assert(occurs_at(stem, g, k + 1));
    }
    if contains_text(stem, "-gcc-"@) {
        let k = choose|k: int| occurs_at(stem, "-gcc-"@, k);
        assert(stem.subrange(k + 1, k + 4) =~= stem.subrange(k, k + 5).subrange(1, 4));
        assert(stem.subrange(k + 1, k + 4) =~= g);
        assert(occurs_at(stem, g, k + 1));
    }
}

/// The C++ compiler that goes with a C compiler has `g++` for the first `gcc` of its name, or
/// `clang++` for the first `clang`, and the rest of the name as it is. A name without these has
/// none beside it.
pub proof fn law_siblings(before: Seq<char>, after: Seq<char>, name: Seq<char>)
    requires
        !contains_text(name, "gcc"@),
        !contains_text(name, "clang"@),
    ensures
        (forall|k: int|
            0 <= k < before.len() ==> !#[trigger] occurs_at(before + "gcc"@ + after, "gcc"@, k))
            ==> cxx_sibling_of(Vendor::Gcc, before + "gcc"@ + after) == Some(
            before + "g++"@ + after,
        ),
        (forall|k: int|
            0 <= k < before.len() ==> !#[trigger] occurs_at(
                before + "clang"@ + after,
                "clang"@,
                k,
            )) ==> cxx_sibling_of(Vendor::Clang, before + "clang"@ + after) == Some(
            before + "clang++"@ + after,
        ),
        cxx_sibling_of(Vendor::Gcc, name) is None,
        cxx_sibling_of(Vendor::Clang, name) is None,
{
    reveal_strlit("gcc");
    reveal_strlit("g++");
    reveal_strlit("clang");
    reveal_strlit("clang++");
    lemma_first_at(name, "gcc"@);
    lemma_first_at(name, "clang"@);
    let at = before.len() as int;
    let g = before + "gcc"@ + after;
    let c = before + "clang"@ + after;
    assert(g.subrange(at, at + 3) =~= "gcc"@);
    assert(c.subrange(at, at + 5) =~= "clang"@);
    if forall|k: int| 0 <= k < at ==> !#[trigger] occurs_at(g, "gcc"@, k) {
        lemma_first_is(g, "gcc"@, at);
        assert(g.take(at) + "g++"@ + g.skip(at + 3) =~= before + "g++"@ + after);
        assert((before + "g++"@ + after)[at + 1] == '+' && g[at + 1] == 'c');
    }
    if forall|k: int| 0 <= k < at ==> !#[trigger] occurs_at(c, "clang"@, k) {
        lemma_first_is(c, "clang"@, at);
        assert(c.take(at) + "clang++"@ + c.skip(at + 5) =~= before + "clang++"@ + after);
        assert((before + "clang++"@ + after).len() == c.len() + 2);
    }
}

/// Only such names are those of compilers: what begins or ends otherwise is none.
pub proof fn law_only_names(stem: Seq<char>)
    ensures
        kind_of_stem(stem) == Some(Vendor::Gcc) ==> {
            ||| stem == "gcc"@
            ||| "gcc-"@.is_prefix_of(stem)
            ||| "-gcc"@.is_suffix_of(stem)
            ||| contains_text(stem, "-gcc-"@)
        },
        kind_of_stem(stem) == Some(Vendor::Clang) ==> stem == "clang"@ || "clang-"@.is_prefix_of(
            stem,
        ),
        kind_of_stem(stem) == Some(Vendor::ClangCl) <==> stem == "clang-cl"@
            || "clang-cl-"@.is_prefix_of(stem),
{
}

/// White space before the first word does not count, and without a word there is no version.
pub proof fn law_version_indented(indent: Seq<char>, w: Seq<char>, after: Seq<char>)
    requires
        blank(indent),
        version_word(w),
        after.len() == 0 || white(after[0]),
    ensures
        version_token(indent + (w + after)) == Some(w),
        version_token(indent) is None,
{
    let none = Seq::<char>::empty();
    assert(!white(w[0]));
    assert((w + after)[0] == w[0]);
    lemma_indent(indent, w + after);
    law_version_word(w, none, after);
    assert(w + none + after =~= w + after);
    lemma_indent(none, w + after);
    assert(none + (w + after) =~= w + after);
    lemma_blank_goes(indent);
}

/// Nothing is left of white space.
proof fn lemma_blank_goes(s: Seq<char>)
    requires
        blank(s),
    ensures
        left_trimmed(s).len() == 0,
    decreases s.len(),
{
    if s.len() > 0 {
        assert(white(s[0]));
        let rest = s.skip(1);
        assert forall|i: int| 0 <= i < rest.len() implies white(#[trigger] rest[i]) by {
            assert(rest[i] == s[i + 1]);
        }
        lemma_blank_goes(rest);
    }
}

/// A line that does not start with the label names no target.
pub proof fn law_no_target_line(line: Seq<char>)
    requires
        !"Target: "@.is_prefix_of(trimmed(line)),
    ensures
        line_target(line) is None,
{
}

} // verus!
