//! Sets of texts, kept as sorted lists.
use vstd::prelude::*;

use crate::text::{equal, position, texts, to_chars};

verus! {

/// `a` stands before `b` in the order of their characters.
pub open spec fn text_lt(a: Seq<char>, b: Seq<char>) -> bool
    decreases a.len(),
{
    if b.len() == 0 {
        false
    } else if a.len() == 0 {
        true
    } else if a[0] != b[0] {
        a[0] < b[0]
    } else {
        text_lt(a.skip(1), b.skip(1))
    }
}

/// The order of texts is strict and total.
pub proof fn lemma_text_lt(a: Seq<char>, b: Seq<char>, c: Seq<char>)
    ensures
        !text_lt(a, a),
        a == b || text_lt(a, b) || text_lt(b, a),
        text_lt(a, b) ==> !text_lt(b, a) && a != b,
        text_lt(a, b) && text_lt(b, c) ==> text_lt(a, c),
    decreases a.len() + b.len() + c.len(),
{
    if a.len() > 0 && b.len() > 0 {
        if c.len() > 0 {
            lemma_text_lt(a.skip(1), b.skip(1), c.skip(1));
        } else {
            lemma_text_lt(a.skip(1), b.skip(1), c);
        }
        if a.skip(1) == b.skip(1) && a[0] == b[0] {
            assert(a == seq![a[0]] + a.skip(1));
            assert(b == seq![b[0]] + b.skip(1));
        }
    } else if a.len() > 0 {
        lemma_text_lt(a.skip(1), b, c);
    } else if b.len() == 0 {
        assert(a =~= b);
    }
}

/// Whether `a` stands before `b` in the order of their characters.
fn text_before(a: &str, b: &str) -> (r: bool)
    ensures
        r == text_lt(a@, b@),
{
    let x = to_chars(a);
    let y = to_chars(b);
    let mut i: usize = 0;
    proof {
        assert(x@.skip(0) == x@);
        assert(y@.skip(0) == y@);
    }
    while i < x.len() && i < y.len()
        invariant
            i <= x@.len(),
            i <= y@.len(),
            x@ == a@,
            y@ == b@,
            text_lt(a@, b@) == text_lt(x@.skip(i as int), y@.skip(i as int)),
        decreases x@.len() - i,
    {
        if x[i] != y[i] {
            return x[i] < y[i];
        }
        proof {
            assert(x@.skip(i as int).skip(1) == x@.skip(i + 1));
            assert(y@.skip(i as int).skip(1) == y@.skip(i + 1));
        }
        i = i + 1;
    }
    i < y.len()
}

/// A sorted list with `x` in its place, unless it is there.
pub open spec fn with_inserted(s: Seq<Seq<char>>, x: Seq<char>) -> Seq<Seq<char>>
    decreases s.len(),
{
    if s.len() == 0 {
        seq![x]
    } else if s.last() == x {
        s
    } else if text_lt(s.last(), x) {
        s.push(x)
    } else {
        with_inserted(s.drop_last(), x).push(s.last())
    }
}

/// The texts of a list in order, each once.
pub open spec fn sorted_set(l: Seq<Seq<char>>) -> Seq<Seq<char>>
    decreases l.len(),
{
    if l.len() == 0 {
        l
    } else {
        with_inserted(sorted_set(l.drop_last()), l.last())
    }
}

/// Every text of a list stands before the ones after it.
pub open spec fn ascending(s: Seq<Seq<char>>) -> bool {
    forall|i: int, j: int| 0 <= i < j < s.len() ==> text_lt(#[trigger] s[i], #[trigger] s[j])
}

/// A sorted set holds the texts of the list and no others, in ascending order.
pub proof fn lemma_sorted_set(l: Seq<Seq<char>>)
    ensures
        ascending(sorted_set(l)),
        forall|x: Seq<char>| #[trigger] sorted_set(l).contains(x) <==> l.contains(x),
    decreases l.len(),
{
    if l.len() > 0 {
        let init = l.drop_last();
        lemma_sorted_set(init);
        lemma_with_inserted(sorted_set(init), l.last());
        assert(l == init.push(l.last()));
        assert forall|x: Seq<char>| #[trigger] sorted_set(l).contains(x) <==> l.contains(x) by {
            assert(with_inserted(sorted_set(init), l.last()).contains(x) <==> sorted_set(
                init,
            ).contains(x) || x == l.last());
            if l.contains(x) {
                let k = choose|k: int| 0 <= k < l.len() && l[k] == x;
                if k < init.len() {
                    assert(init[k] == x);
                }
            }
            if init.contains(x) {
                let k = choose|k: int| 0 <= k < init.len() && init[k] == x;
                assert(l[k] == x);
            }
            assert(l[l.len() - 1] == l.last());
        }
    }
}

/// An insertion adds the text and keeps the order.
proof fn lemma_with_inserted(s: Seq<Seq<char>>, x: Seq<char>)
    requires
        ascending(s),
    ensures
        ascending(with_inserted(s, x)),
        forall|y: Seq<char>| #[trigger]
            with_inserted(s, x).contains(y) <==> s.contains(y) || y == x,
    decreases s.len(),
{
    let r = with_inserted(s, x);
    if s.len() == 0 {
        assert(r[0] == x);
    } else {
        let last = s.last();
        let init = s.drop_last();
        assert(s[s.len() - 1] == last);
        if last == x {
            assert(s.contains(x));
        } else if text_lt(last, x) {
            assert forall|i: int, j: int| 0 <= i < j < r.len() implies text_lt(
                #[trigger] r[i],
                #[trigger] r[j],
            ) by {
                if j == s.len() {
                    if i < s.len() - 1 {
                        assert(text_lt(s[i], s[s.len() - 1]));
                        lemma_text_lt(s[i], last, x);
                    }
                }
            }
            assert forall|y: Seq<char>| #[trigger] r.contains(y) <==> s.contains(y) || y == x by {
                if s.contains(y) {
                    let k = choose|k: int| 0 <= k < s.len() && s[k] == y;
                    assert(r[k] == y);
                }
                assert(r[s.len() as int] == x);
            }
        } else {
            lemma_text_lt(last, x, x);
            assert(ascending(init)) by {
                assert forall|i: int, j: int| 0 <= i < j < init.len() implies text_lt(
                    #[trigger] init[i],
                    #[trigger] init[j],
                ) by {
                    assert(text_lt(s[i], s[j]));
                }
            }
            lemma_with_inserted(init, x);
            let q = with_inserted(init, x);
            assert forall|i: int, j: int| 0 <= i < j < r.len() implies text_lt(
                #[trigger] r[i],
                #[trigger] r[j],
            ) by {
                if j == q.len() {
                    assert(q.contains(q[i]));
                    if q[i] != x {
                        assert(init.contains(q[i]));
                        let k = choose|k: int| 0 <= k < init.len() && init[k] == q[i];
                        assert(text_lt(s[k], s[s.len() - 1]));
                    }
                }
            }
            assert forall|y: Seq<char>| #[trigger] r.contains(y) <==> s.contains(y) || y == x by {
                assert(q.contains(y) <==> init.contains(y) || y == x);
                if s.contains(y) {
                    let k = choose|k: int| 0 <= k < s.len() && s[k] == y;
                    if k < init.len() {
                        assert(init[k] == y);
                        let m = choose|m: int| 0 <= m < q.len() && q[m] == y;
                        assert(r[m] == y);
                    } else {
                        assert(r[q.len() as int] == y);
                    }
                }
                if y == x {
                    let m = choose|m: int| 0 <= m < q.len() && q[m] == y;
                    assert(r[m] == y);
                }
                if r.contains(y) {
                    let m = choose|m: int| 0 <= m < r.len() && r[m] == y;
                    if m < q.len() {
                        assert(q[m] == y);
                        if y != x {
                            let k = choose|k: int| 0 <= k < init.len() && init[k] == y;
                            assert(s[k] == y);
                        }
                    }
                }
            }
        }
    }
}

/// Adds a text to a sorted set.
pub fn insert_sorted(set: &mut Vec<String>, x: String)
    ensures
        texts(final(set)@) == with_inserted(texts(old(set)@), x@),
{
    let ghost all = texts(set@);
    let n: usize = set.len();
    let mut pos: usize = n;
    proof {
        assert(all.take(n as int) == all);
        assert(with_inserted(all, x@) + all.skip(n as int) =~= with_inserted(all, x@));
    }
    while pos > 0 && !equal(set[pos - 1].as_str(), x.as_str()) && !text_before(
        set[pos - 1].as_str(),
        x.as_str(),
    )
        invariant
            pos <= n,
            n == set@.len(),
            all == texts(set@),
            with_inserted(all, x@) == with_inserted(all.take(pos as int), x@) + all.skip(
                pos as int,
            ),
        decreases pos,
    {
        proof {
            let t = all.take(pos as int);
            assert(t.last() == set@[pos - 1]@);
            assert(t.drop_last() == all.take(pos - 1));
            assert(with_inserted(t.drop_last(), x@).push(t.last()) + all.skip(pos as int)
                =~= with_inserted(all.take(pos - 1), x@) + all.skip(pos - 1));
        }
        pos = pos - 1;
    }
    let ghost t = all.take(pos as int);
    proof {
        if pos > 0 {
            assert(t.last() == set@[pos - 1]@);
        }
    }
    if pos > 0 && equal(set[pos - 1].as_str(), x.as_str()) {
        proof {
            assert(t + all.skip(pos as int) =~= all);
        }
    } else {
        let ghost xs = x@;
        set.insert(pos, x);
        proof {
            assert(texts(set@) =~= t.push(xs) + all.skip(pos as int));
            if pos == 0 {
                assert(t.push(xs) =~= seq![xs]);
            }
        }
    }
}

/// Says of a text whether its being in `m` is as `wanted`.
pub open spec fn in_list(m: Seq<Seq<char>>, wanted: bool) -> spec_fn(Seq<char>) -> bool {
    |x: Seq<char>| m.contains(x) == wanted
}

/// The strings of `l` that are in `m`, or those that are not.
pub fn select(l: &Vec<String>, m: &Vec<String>, wanted: bool) -> (r: Vec<String>)
    ensures
        texts(r@) == texts(l@).filter(in_list(texts(m@), wanted)),
{
    let ghost all = texts(l@);
    let ghost p = in_list(texts(m@), wanted);
    let mut out: Vec<String> = Vec::new();
    let mut i: usize = 0;
    proof {
        reveal(Seq::filter);
        assert(texts(out@) =~= all.take(0).filter(p));
    }
    while i < l.len()
        invariant
            i <= l@.len(),
            all == texts(l@),
            p == in_list(texts(m@), wanted),
            texts(out@) == all.take(i as int).filter(p),
        decreases l@.len() - i,
    {
        let ghost before = out@;
        proof {
            reveal(Seq::filter);
            assert(all.take(i + 1).drop_last() == all.take(i as int));
            assert(all.take(i + 1).last() == l@[i as int]@);
        }
        if position(m, l[i].as_str()).is_some() == wanted {
            out.push(l[i].clone());
            proof {
                assert(texts(out@) =~= texts(before).push(l@[i as int]@));
            }
        }
        i = i + 1;
    }
    proof {
        assert(all.take(i as int) == all);
    }
    out
}

/// A text is selected if it is in the list and its being in the other is as wanted.
pub proof fn lemma_selected(l: Seq<Seq<char>>, m: Seq<Seq<char>>, wanted: bool, x: Seq<char>)
    ensures
        l.filter(in_list(m, wanted)).contains(x) <==> l.contains(x) && m.contains(x) == wanted,
    decreases l.len(),
{
    reveal(Seq::filter);
    if l.len() > 0 {
        let p = in_list(m, wanted);
        let init = l.drop_last();
        let kept = init.filter(p);
        lemma_selected(init, m, wanted, x);
        assert(l == init.push(l.last()));
        lemma_push_contains(init, l.last(), x);
        lemma_push_contains(kept, l.last(), x);
    }
}

/// A list with a text at its end holds that text and what it held.
proof fn lemma_push_contains(l: Seq<Seq<char>>, y: Seq<char>, x: Seq<char>)
    ensures
        l.push(y).contains(x) <==> l.contains(x) || x == y,
{
    let more = l.push(y);
    assert(more[l.len() as int] == y);
    if l.contains(x) {
        let k = choose|k: int| 0 <= k < l.len() && l[k] == x;
        assert(more[k] == x);
    }
    if more.contains(x) {
        let k = choose|k: int| 0 <= k < more.len() && more[k] == x;
        if k < l.len() {
            assert(l[k] == x);
        }
    }
}

/// The texts in a list and those not in it are all the texts.
pub proof fn lemma_partition(l: Seq<Seq<char>>, m: Seq<Seq<char>>)
    ensures
        l.filter(in_list(m, true)).len() + l.filter(in_list(m, false)).len() == l.len(),
    decreases l.len(),
{
    reveal(Seq::filter);
    if l.len() > 0 {
        lemma_partition(l.drop_last(), m);
    }
}

} // verus!
