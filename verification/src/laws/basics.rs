//! Laws on characters, numbers and the order of texts.
use vstd::prelude::*;

use crate::number::{all_digits, decimal, parsed, value_of};
use crate::text::{after_prefix, before_suffix, digit, white, with_char_replaced};
use crate::text_set::{ascending, lemma_sorted_set, sorted_set, text_lt};

verus! {

/// White space of ASCII is the tab, the line feed, the vertical tab, the form feed, the carriage
/// return and the space.
pub proof fn law_ascii_white(c: char)
    requires
        (c as u32) < 0x80,
    ensures
        white(c) <==> c == '\t' || c == '\n' || c == '\x0b' || c == '\x0c' || c == '\r' || c == ' ',
{
}

/// Beyond ASCII it is the spaces and separators of Unicode.
pub proof fn law_other_white(c: char)
    requires
        (c as u32) >= 0x80,
    ensures
        white(c) <==> c == '\u{85}' || c == '\u{a0}' || c == '\u{1680}' || '\u{2000}' <= c
            <= '\u{200a}' || c == '\u{2028}' || c == '\u{2029}' || c == '\u{202f}' || c
            == '\u{205f}' || c == '\u{3000}',
{
}

/// The digits are the ten of ASCII.
pub proof fn law_digits(c: char)
    ensures
        digit(c) <==> seq!['0', '1', '2', '3', '4', '5', '6', '7', '8', '9'].contains(c),
{
    let all = seq!['0', '1', '2', '3', '4', '5', '6', '7', '8', '9'];
    if digit(c) {
        assert(all[(c as u32 - '0' as u32) as int] == c);
    }
}

/// A number is written with its last digit behind those of its tenth part.
pub proof fn law_decimal(n: nat, d: nat)
    requires
        d < 10,
    ensures
        decimal(d) == seq![('0' as u32 + d) as char],
        n > 0 ==> decimal(n * 10 + d) == decimal(n).push(('0' as u32 + d) as char),
{
    if n > 0 {
        let m = n * 10 + d;
        assert(m / 10 == n && m % 10 == d);
    }
}

/// Digits are read as they are written: one more makes ten times as much and the digit.
pub proof fn law_value(s: Seq<char>, c: char)
    requires
        digit(c),
    ensures
        value_of(Seq::empty()) == 0,
        value_of(s.push(c)) == value_of(s) * 10 + (c as u32 - '0' as u32),
{
    assert(s.push(c).drop_last() =~= s);
}

/// A text is a number exactly where it has digits alone and at least one, with a plus sign in
/// front or without, and the number is not too large.
pub proof fn law_parsed(s: Seq<char>)
    requires
        s.len() == 0 || s[0] != '+',
    ensures
        parsed(s) is Some <==> s.len() > 0 && (forall|i: int|
            0 <= i < s.len() ==> '0' <= #[trigger] s[i] <= '9') && value_of(s)
            <= 0xffff_ffff_ffff_ffff,
        parsed(s) is Some ==> parsed(s)->0 == value_of(s),
        parsed("+"@ + s) == parsed(s),
{
    reveal_strlit("+");
    assert(("+"@ + s).skip(1) =~= s);
    if all_digits(s) {
        assert forall|i: int| 0 <= i < s.len() implies '0' <= #[trigger] s[i] <= '9' by {
            assert(digit(s[i]));
        }
    }
}

/// Replacing a character changes every one of it and no other.
pub proof fn law_replaced(s: Seq<char>, a: char, b: char)
    ensures
        with_char_replaced(s, a, b).len() == s.len(),
        forall|i: int|
            0 <= i < s.len() ==> #[trigger] with_char_replaced(s, a, b)[i] == if s[i] == a {
                b
            } else {
                s[i]
            },
{
}

/// What stands behind a prefix and before a suffix is what was put there.
pub proof fn law_affixes(s: Seq<char>, p: Seq<char>)
    ensures
        after_prefix(p + s, p) == Some(s),
        before_suffix(s + p, p) == Some(s),
        after_prefix(s, p) matches Some(rest) ==> s == p + rest,
        before_suffix(s, p) matches Some(rest) ==> s == rest + p,
{
    let ps = p + s;
    let sp = s + p;
    assert(ps.subrange(0, p.len() as int) =~= p);
    assert(ps.skip(p.len() as int) =~= s);
    assert(sp.subrange(sp.len() - p.len(), sp.len() as int) =~= p);
    assert(sp.take(sp.len() - p.len()) =~= s);
    if p.is_prefix_of(s) {
        assert(p + s.skip(p.len() as int) =~= s);
    }
    if p.is_suffix_of(s) {
        assert(s.take(s.len() - p.len()) + p =~= s);
    }
}

/// Texts are ordered by the first character in which they differ, and a start of a text stands
/// before it.
pub proof fn law_text_order(
    start: Seq<char>,
    x: char,
    a: Seq<char>,
    y: char,
    b: Seq<char>,
)
    ensures
        x < y ==> text_lt(start + seq![x] + a, start + seq![y] + b),
        text_lt(start, start + seq![x] + a),
        !text_lt(start + seq![x] + a, start),
    decreases start.len(),
{
    let s = start + seq![x] + a;
    let t = start + seq![y] + b;
    if start.len() > 0 {
        let rest = start.skip(1);
        law_text_order(rest, x, a, y, b);
        assert(s[0] == start[0] && t[0] == start[0]);
        assert(s.skip(1) =~= rest + seq![x] + a);
        assert(t.skip(1) =~= rest + seq![y] + b);
    } else {
        assert(s[0] == x && t[0] == y);
    }
}

/// A sorted set holds every text of the list, nothing else, nothing twice, and in order.
pub proof fn law_sorted_set(l: Seq<Seq<char>>, i: int, j: int)
    ensures
        forall|x: Seq<char>| #[trigger] sorted_set(l).contains(x) <==> l.contains(x),
        0 <= i < j < sorted_set(l).len() ==> text_lt(sorted_set(l)[i], sorted_set(l)[j]),
{
    lemma_sorted_set(l);
    assert(ascending(sorted_set(l)));
}

} // verus!
