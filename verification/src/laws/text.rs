//! Laws on texts and lists of texts.
use vstd::prelude::*;

use crate::text::{
    first_copies, left_trimmed, lemma_first_copies, right_trimmed, trimmed, white, without_suffixes,
};

verus! {

/// A text that neither starts nor ends with white space and is not empty.
pub open spec fn tight(s: Seq<char>) -> bool {
    s.len() > 0 && !white(s[0]) && !white(s.last())
}

/// Every character of a text is white space.
pub open spec fn blank(s: Seq<char>) -> bool {
    forall|i: int| 0 <= i < s.len() ==> white(#[trigger] s[i])
}

/// Trimming takes the white space around a text and nothing else.
pub proof fn law_trimmed(before: Seq<char>, s: Seq<char>, after: Seq<char>)
    requires
        tight(s),
        blank(before),
        blank(after),
    ensures
        trimmed(before + s + after) == s,
        left_trimmed(before + s + after) == s + after,
{
    lemma_left(before, s + after);
    assert(before + (s + after) =~= before + s + after);
    assert((s + after)[0] == s[0]);
    lemma_right(s, after);
}

/// White space at the start goes.
proof fn lemma_left(before: Seq<char>, s: Seq<char>)
    requires
        s.len() > 0,
        !white(s[0]),
        blank(before),
    ensures
        left_trimmed(before + s) == s,
    decreases before.len(),
{
    let all = before + s;
    if before.len() == 0 {
        assert(all =~= s);
    } else {
        assert(all[0] == before[0]);
        assert(white(before[0]));
        let rest = before.skip(1);
        assert forall|i: int| 0 <= i < rest.len() implies white(#[trigger] rest[i]) by {
            assert(rest[i] == before[i + 1]);
        }
        assert(all.skip(1) =~= rest + s);
        lemma_left(rest, s);
    }
}

/// White space at the end goes.
proof fn lemma_right(s: Seq<char>, after: Seq<char>)
    requires
        s.len() > 0,
        !white(s.last()),
        blank(after),
    ensures
        right_trimmed(s + after) == s,
    decreases after.len(),
{
    let all = s + after;
    if after.len() == 0 {
        assert(all =~= s);
    } else {
        assert(all.last() == after.last());
        assert(white(after[after.len() - 1]));
        let rest = after.drop_last();
        assert forall|i: int| 0 <= i < rest.len() implies white(#[trigger] rest[i]) by {
            assert(rest[i] == after[i]);
        }
        assert(all.drop_last() =~= s + rest);
        lemma_right(s, rest);
    }
}

/// A text without white space around it stays as it is.
pub proof fn law_tight_stays(s: Seq<char>)
    requires
        tight(s),
    ensures
        trimmed(s) == s,
        left_trimmed(s) == s,
        right_trimmed(s) == s,
{
    let none = Seq::<char>::empty();
    law_trimmed(none, s, none);
    assert(none + s + none =~= s);
    assert(s + none =~= s);
}

/// What trimming leaves is a part of the text, and is empty or without white space around it.
pub proof fn law_trimmed_part(s: Seq<char>)
    ensures
        trimmed(s).len() == 0 || tight(trimmed(s)),
        exists|i: int| #[trigger] part_at(s, trimmed(s), i),
{
    let n = lemma_left_part(s);
    let l = left_trimmed(s);
    let m = lemma_right_part(l);
    let t = trimmed(s);
    assert(t =~= s.subrange(n, n + t.len()));
    assert(part_at(s, t, n));
    if t.len() > 0 {
        assert(l.len() > 0);
        assert(t[0] == l[0]);
    }
}

/// `t` stands in `s` at `i`.
pub open spec fn part_at(s: Seq<char>, t: Seq<char>, i: int) -> bool {
    0 <= i && i + t.len() <= s.len() && t == s.subrange(i, i + t.len())
}

proof fn lemma_left_part(s: Seq<char>) -> (n: int)
    ensures
        0 <= n <= s.len(),
        left_trimmed(s) == s.skip(n),
        left_trimmed(s).len() > 0 ==> !white(left_trimmed(s)[0]),
    decreases s.len(),
{
    if s.len() > 0 && white(s[0]) {
        let n = lemma_left_part(s.skip(1));
        assert(s.skip(1).skip(n) =~= s.skip(n + 1));
        n + 1
    } else {
        assert(s.skip(0) =~= s);
        0
    }
}

proof fn lemma_right_part(s: Seq<char>) -> (n: int)
    ensures
        0 <= n <= s.len(),
        right_trimmed(s) == s.take(n),
        right_trimmed(s).len() > 0 ==> !white(right_trimmed(s).last()),
    decreases s.len(),
{
    if s.len() > 0 && white(s.last()) {
        let n = lemma_right_part(s.drop_last());
        assert(s.drop_last().take(n) =~= s.take(n));
        n
    } else {
        assert(s.take(s.len() as int) =~= s);
        s.len() as int
    }
}

/// However often a text stands at the end, all copies go and no more than they.
pub proof fn law_suffixes_go(s: Seq<char>, p: Seq<char>)
    requires
        p.len() > 0,
    ensures
        without_suffixes(s + p, p) == without_suffixes(s, p),
        !p.is_suffix_of(s) ==> without_suffixes(s, p) == s,
{
    let all = s + p;
    assert(all.subrange(all.len() - p.len(), all.len() as int) =~= p);
    assert(all.take(all.len() - p.len()) =~= s);
}

/// Leaving out later copies keeps the order in which texts first stand in a list: what first
/// stands at `i`, before what first stands at `j`, still stands before it.
pub proof fn law_first_copies_order(l: Seq<Seq<char>>, i: int, j: int)
    requires
        0 <= i < j < l.len(),
        forall|k: int| 0 <= k < i ==> l[k] != l[i],
        forall|k: int| 0 <= k < j ==> l[k] != l[j],
    ensures
        exists|a: int, b: int|
            0 <= a < b < first_copies(l).len() && #[trigger] first_copies(l)[a] == l[i]
                && #[trigger] first_copies(l)[b] == l[j],
    decreases l.len(),
{
    let init = l.drop_last();
    let before = first_copies(init);
    let all = first_copies(l);
    lemma_first_copies(init);
    if j < l.len() - 1 {
        assert(init[i] == l[i] && init[j] == l[j]);
        assert forall|k: int| 0 <= k < i implies init[k] != init[i] by {
            assert(init[k] == l[k]);
        }
        assert forall|k: int| 0 <= k < j implies init[k] != init[j] by {
            assert(init[k] == l[k]);
        }
        law_first_copies_order(init, i, j);
        let (a, b) = choose|a: int, b: int|
            0 <= a < b < before.len() && #[trigger] before[a] == init[i] && #[trigger] before[b]
                == init[j];
        assert(all[a] == l[i] && all[b] == l[j]);
    } else {
        assert(init[i] == l[i]);
        assert(init.contains(l[i]));
        assert(before.contains(l[i]));
        let a = choose|a: int| 0 <= a < before.len() && before[a] == l[i];
        assert(!init.contains(l.last())) by {
            if init.contains(l.last()) {
                let k = choose|k: int| 0 <= k < init.len() && init[k] == l.last();
                assert(l[k] == l[j]);
            }
        }
        assert(!before.contains(l.last()));
        assert(all[a] == l[i] && all[before.len() as int] == l[j]);
    }
}

} // verus!
