//! Text as sequences of characters: trimming, searching, splitting and joining.
use vstd::prelude::*;
use vstd::slice::slice_subrange;

use crate::platform::string_of;

verus! {

// ---------------------------------------------------------------------------
// Characters
// ---------------------------------------------------------------------------

/// The characters with the Unicode property `White_Space`.
pub open spec fn white(c: char) -> bool {
    let n = c as u32;
    ||| 0x09 <= n <= 0x0D
    ||| n == 0x20
    ||| n == 0x85
    ||| n == 0xA0
    ||| n == 0x1680
    ||| 0x2000 <= n <= 0x200A
    ||| 0x2028 <= n <= 0x2029
    ||| n == 0x202F
    ||| n == 0x205F
    ||| n == 0x3000
}

/// The ASCII decimal digits.
pub open spec fn digit(c: char) -> bool {
    '0' <= c <= '9'
}

/// Whether `c` is white space.
pub fn is_white(c: char) -> (r: bool)
    ensures
        r == white(c),
{
    let n: u32 = c as u32;
    (0x09 <= n && n <= 0x0D) || n == 0x20 || n == 0x85 || n == 0xA0 || n == 0x1680
        || (0x2000 <= n && n <= 0x200A) || (0x2028 <= n && n <= 0x2029) || n == 0x202F
        || n == 0x205F || n == 0x3000
}

/// Whether `c` is an ASCII decimal digit.
pub fn is_digit(c: char) -> (r: bool)
    ensures
        r == digit(c),
{
    '0' <= c && c <= '9'
}

// ---------------------------------------------------------------------------
// Conversions
// ---------------------------------------------------------------------------

/// The contents of a list of strings.
pub open spec fn texts(v: Seq<String>) -> Seq<Seq<char>> {
    v.map_values(|s: String| s@)
}

/// The contents of a list of character vectors.
pub open spec fn char_seqs(v: Seq<Vec<char>>) -> Seq<Seq<char>> {
    v.map_values(|s: Vec<char>| s@)
}

/// The contents of a list of optional strings.
pub open spec fn opt_texts(v: Seq<Option<String>>) -> Seq<Option<Seq<char>>> {
    v.map_values(|o: Option<String>| opt_text(o))
}

/// The content of an optional string.
pub open spec fn opt_text(o: Option<String>) -> Option<Seq<char>> {
    match o {
        Some(s) => Some(s@),
        None => None,
    }
}

/// The characters of `s`.
pub fn to_chars(s: &str) -> (r: Vec<char>)
    ensures
        r@ == s@,
{
    let mut out: Vec<char> = Vec::new();
    for c in it: s.chars()
        invariant
            out@ == it.seq().take(it.index()),
            it.seq() == s@,
    {
        out.push(c);
    }
    out
}

/// A copy of an optional string.
pub fn clone_opt(o: &Option<String>) -> (r: Option<String>)
    ensures
        opt_text(r) == opt_text(*o),
{
    match o {
        Some(s) => Some(s.clone()),
        None => None,
    }
}

// ---------------------------------------------------------------------------
// Trimming
// ---------------------------------------------------------------------------

/// `s` without the white space at its start.
pub open spec fn left_trimmed(s: Seq<char>) -> Seq<char>
    decreases s.len(),
{
    if s.len() > 0 && white(s[0]) {
        left_trimmed(s.skip(1))
    } else {
        s
    }
}

/// `s` without the white space at its end.
pub open spec fn right_trimmed(s: Seq<char>) -> Seq<char>
    decreases s.len(),
{
    if s.len() > 0 && white(s.last()) {
        right_trimmed(s.drop_last())
    } else {
        s
    }
}

/// `s` without the white space at both ends.
pub open spec fn trimmed(s: Seq<char>) -> Seq<char> {
    right_trimmed(left_trimmed(s))
}

/// `s` without the characters at its end for which `drop` holds.
pub open spec fn without_trailing(s: Seq<char>, drop: spec_fn(char) -> bool) -> Seq<char>
    decreases s.len(),
{
    if s.len() > 0 && drop(s.last()) {
        without_trailing(s.drop_last(), drop)
    } else {
        s
    }
}

/// `s` without any copies of `p` at its end.
pub open spec fn without_suffixes(s: Seq<char>, p: Seq<char>) -> Seq<char>
    decreases s.len(),
{
    if p.len() > 0 && p.is_suffix_of(s) {
        without_suffixes(s.take(s.len() - p.len()), p)
    } else {
        s
    }
}

/// Drops the white space at the start.
pub fn trim_start(s: &[char]) -> (r: &[char])
    ensures
        r@ == left_trimmed(s@),
{
    let mut i: usize = 0;
    proof {
        assert(s@.skip(0) == s@);
    }
    while i < s.len() && is_white(s[i])
        invariant
            i <= s@.len(),
            left_trimmed(s@) == left_trimmed(s@.skip(i as int)),
        decreases s@.len() - i,
    {
        proof {
            assert(s@.skip(i as int).skip(1) == s@.skip(i + 1));
        }
        i = i + 1;
    }
    proof {
        assert(s@.skip(i as int) == s@.subrange(i as int, s@.len() as int));
    }
    slice_subrange(s, i, s.len())
}

/// Drops the white space at the end.
pub fn trim_end(s: &[char]) -> (r: &[char])
    ensures
        r@ == right_trimmed(s@),
{
    let mut n: usize = s.len();
    proof {
        assert(s@.take(n as int) == s@);
    }
    while n > 0 && is_white(s[n - 1])
        invariant
            n <= s@.len(),
            right_trimmed(s@) == right_trimmed(s@.take(n as int)),
        decreases n,
    {
        proof {
            assert(s@.take(n as int).drop_last() == s@.take(n - 1));
        }
        n = n - 1;
    }
    proof {
        assert(s@.take(n as int) == s@.subrange(0, n as int));
    }
    slice_subrange(s, 0, n)
}

/// Drops the white space at both ends.
pub fn trim(s: &[char]) -> (r: &[char])
    ensures
        r@ == trimmed(s@),
{
    trim_end(trim_start(s))
}

/// Drops the copies of `c` at the end.
pub fn trim_end_char(s: &[char], c: char) -> (r: &[char])
    ensures
        r@ == without_trailing(s@, |x: char| x == c),
{
    let ghost drop = |x: char| x == c;
    let mut n: usize = s.len();
    proof {
        assert(s@.take(n as int) == s@);
    }
    while n > 0 && s[n - 1] == c
        invariant
            n <= s@.len(),
            drop == (|x: char| x == c),
            without_trailing(s@, drop) == without_trailing(s@.take(n as int), drop),
        decreases n,
    {
        proof {
            assert(s@.take(n as int).drop_last() == s@.take(n - 1));
        }
        n = n - 1;
    }
    proof {
        assert(s@.take(n as int) == s@.subrange(0, n as int));
    }
    slice_subrange(s, 0, n)
}

/// Drops the line terminators, carriage returns and line feeds, at the end.
pub fn trim_end_newlines(s: &[char]) -> (r: &[char])
    ensures
        r@ == without_trailing(s@, |x: char| x == '\r' || x == '\n'),
{
    let ghost drop = |x: char| x == '\r' || x == '\n';
    let mut n: usize = s.len();
    proof {
        assert(s@.take(n as int) == s@);
    }
    while n > 0 && (s[n - 1] == '\r' || s[n - 1] == '\n')
        invariant
            n <= s@.len(),
            drop == (|x: char| x == '\r' || x == '\n'),
            without_trailing(s@, drop) == without_trailing(s@.take(n as int), drop),
        decreases n,
    {
        proof {
            assert(s@.take(n as int).drop_last() == s@.take(n - 1));
        }
        n = n - 1;
    }
    proof {
        assert(s@.take(n as int) == s@.subrange(0, n as int));
    }
    slice_subrange(s, 0, n)
}

// ---------------------------------------------------------------------------
// Comparing and searching
// ---------------------------------------------------------------------------

/// `p` stands in `s` at position `i`.
pub open spec fn occurs_at(s: Seq<char>, p: Seq<char>, i: int) -> bool {
    &&& 0 <= i
    &&& i + p.len() <= s.len()
    &&& s.subrange(i, i + p.len()) == p
}

/// `p` stands somewhere in `s`.
pub open spec fn contains_text(s: Seq<char>, p: Seq<char>) -> bool {
    exists|i: int| occurs_at(s, p, i)
}

/// The first position at or after `from` at which `p` stands in `s`.
pub open spec fn find_from(s: Seq<char>, p: Seq<char>, from: int) -> Option<int>
    decreases s.len() - from + 1,
{
    if from < 0 || from + p.len() > s.len() {
        None
    } else if occurs_at(s, p, from) {
        Some(from)
    } else {
        find_from(s, p, from + 1)
    }
}

/// The first position at which `p` stands in `s`.
pub open spec fn first_at(s: Seq<char>, p: Seq<char>) -> Option<int> {
    find_from(s, p, 0)
}

/// `find_from` yields the least position, and one whenever there is one.
pub proof fn lemma_find_from(s: Seq<char>, p: Seq<char>, from: int)
    requires
        0 <= from,
    ensures
        match find_from(s, p, from) {
            Some(k) => from <= k && occurs_at(s, p, k) && forall|i: int|
                from <= i < k ==> !occurs_at(s, p, i),
            None => forall|i: int| from <= i ==> !occurs_at(s, p, i),
        },
    decreases s.len() - from + 1,
{
    if from + p.len() <= s.len() && !occurs_at(s, p, from) {
        lemma_find_from(s, p, from + 1);
    }
}

/// A text contains another exactly where the search for it succeeds, and the search
/// gives the leftmost place.
pub proof fn lemma_first_at(s: Seq<char>, p: Seq<char>)
    ensures
        contains_text(s, p) == (first_at(s, p) is Some),
        first_at(s, p) matches Some(k) ==> occurs_at(s, p, k) && forall|i: int|
            0 <= i < k ==> !occurs_at(s, p, i),
{
    lemma_find_from(s, p, 0);
}

/// Whether two texts are equal.
pub fn same(a: &[char], b: &[char]) -> (r: bool)
    ensures
        r == (a@ == b@),
{
    if a.len() != b.len() {
        return false;
    }
    let mut i: usize = 0;
    while i < a.len()
        invariant
            a@.len() == b@.len(),
            i <= a@.len(),
            forall|k: int| 0 <= k < i ==> a@[k] == b@[k],
        decreases a@.len() - i,
    {
        if a[i] != b[i] {
            return false;
        }
        i = i + 1;
    }
    proof {
        assert(a@ =~= b@);
    }
    true
}

/// Whether `p` stands in `s` at position `at`.
fn stands_at(s: &[char], p: &[char], at: usize) -> (r: bool)
    requires
        at + p@.len() <= s@.len(),
    ensures
        r == occurs_at(s@, p@, at as int),
{
    let rest = slice_subrange(s, at, s.len());
    proof {
        assert(rest@.subrange(0, p@.len() as int) =~= s@.subrange(at as int, at + p@.len()));
    }
    same(slice_subrange(rest, 0, p.len()), p)
}

/// Whether `s` starts with `p`.
pub fn starts_with(s: &[char], p: &str) -> (r: bool)
    ensures
        r == p@.is_prefix_of(s@),
{
    let p = to_chars(p);
    p.len() <= s.len() && same(slice_subrange(s, 0, p.len()), p.as_slice())
}

/// Whether `s` ends with `p`.
pub fn ends_with(s: &[char], p: &str) -> (r: bool)
    ensures
        r == p@.is_suffix_of(s@),
{
    let p = to_chars(p);
    p.len() <= s.len() && same(slice_subrange(s, s.len() - p.len(), s.len()), p.as_slice())
}

/// The first position of `p` in `s`.
pub fn find(s: &[char], p: &str) -> (r: Option<usize>)
    ensures
        match r {
            Some(i) => first_at(s@, p@) == Some(i as int) && i + p@.len() <= s@.len(),
            None => first_at(s@, p@) is None,
        },
{
    let pat = to_chars(p);
    let n: usize = s.len();
    let mut i: usize = 0;
    while i < n && pat.len() <= n - i
        invariant
            n == s@.len(),
            pat@ == p@,
            i <= n,
            first_at(s@, p@) == find_from(s@, p@, i as int),
        decreases n - i,
    {
        if stands_at(s, pat.as_slice(), i) {
            return Some(i);
        }
        i = i + 1;
    }
    if pat.len() == 0 {
        proof {
            assert(occurs_at(s@, p@, i as int)) by {
                assert(s@.subrange(i as int, i as int) =~= p@);
            }
        }
        Some(i)
    } else {
        None
    }
}

/// Whether `p` stands anywhere in `s`.
pub fn contains(s: &[char], p: &str) -> (r: bool)
    ensures
        r == contains_text(s@, p@),
{
    proof {
        lemma_first_at(s@, p@);
    }
    find(s, p).is_some()
}

/// `s` after its prefix `p`.
pub open spec fn after_prefix(s: Seq<char>, p: Seq<char>) -> Option<Seq<char>> {
    if p.is_prefix_of(s) {
        Some(s.skip(p.len() as int))
    } else {
        None
    }
}

/// `s` before its suffix `p`.
pub open spec fn before_suffix(s: Seq<char>, p: Seq<char>) -> Option<Seq<char>> {
    if p.is_suffix_of(s) {
        Some(s.take(s.len() - p.len()))
    } else {
        None
    }
}

/// The content of an optional slice.
pub open spec fn opt_slice(o: Option<&[char]>) -> Option<Seq<char>> {
    match o {
        Some(s) => Some(s@),
        None => None,
    }
}

/// `s` after its prefix `p`, if it has it.
pub fn strip_prefix<'a>(s: &'a [char], p: &str) -> (r: Option<&'a [char]>)
    ensures
        opt_slice(r) == after_prefix(s@, p@),
{
    if starts_with(s, p) {
        let n: usize = to_chars(p).len();
        proof {
            assert(s@.skip(n as int) == s@.subrange(n as int, s@.len() as int));
        }
        Some(slice_subrange(s, n, s.len()))
    } else {
        None
    }
}

/// `s` before its suffix `p`, if it has it.
pub fn strip_suffix<'a>(s: &'a [char], p: &str) -> (r: Option<&'a [char]>)
    ensures
        opt_slice(r) == before_suffix(s@, p@),
{
    if ends_with(s, p) {
        let n: usize = s.len() - to_chars(p).len();
        proof {
            assert(s@.take(n as int) == s@.subrange(0, n as int));
        }
        Some(slice_subrange(s, 0, n))
    } else {
        None
    }
}

/// Drops every copy of `p` at the end.
pub fn trim_end_text<'a>(s: &'a [char], p: &str) -> (r: &'a [char])
    requires
        p@.len() > 0,
    ensures
        r@ == without_suffixes(s@, p@),
{
    let mut cur: &[char] = s;
    loop
        invariant
            p@.len() > 0,
            without_suffixes(s@, p@) == without_suffixes(cur@, p@),
        decreases cur@.len(),
    {
        match strip_suffix(cur, p) {
            Some(shorter) => {
                cur = shorter;
            },
            None => {
                return cur;
            },
        }
    }
}

// ---------------------------------------------------------------------------
// Splitting and joining
// ---------------------------------------------------------------------------

/// The pieces of `s` between the copies of `c`: one more than there are copies.
pub open spec fn split_on(s: Seq<char>, c: char) -> Seq<Seq<char>>
    decreases s.len(),
{
    if s.len() == 0 {
        seq![Seq::<char>::empty()]
    } else {
        let before = split_on(s.drop_last(), c);
        if s.last() == c {
            before.push(Seq::<char>::empty())
        } else {
            before.drop_last().push(before.last().push(s.last()))
        }
    }
}

/// The pieces of `parts` one after the other, with `sep` between neighbours.
pub open spec fn joined(parts: Seq<Seq<char>>, sep: Seq<char>) -> Seq<char>
    decreases parts.len(),
{
    if parts.len() == 0 {
        Seq::<char>::empty()
    } else if parts.len() == 1 {
        parts[0]
    } else {
        joined(parts.drop_last(), sep) + sep + parts.last()
    }
}

/// A line without the carriage return that stood before its line feed.
pub open spec fn without_cr(s: Seq<char>) -> Seq<char> {
    if s.len() > 0 && s.last() == '\r' {
        s.drop_last()
    } else {
        s
    }
}

/// The lines of a text. A line ends with a line feed, which may follow a carriage return;
/// what stands after the last line feed is a line of its own unless it is empty.
pub open spec fn lines_of(s: Seq<char>) -> Seq<Seq<char>> {
    let pieces = split_on(s, '\n');
    let ended = pieces.drop_last().map_values(|l: Seq<char>| without_cr(l));
    if pieces.last().len() == 0 {
        ended
    } else {
        ended.push(pieces.last())
    }
}

/// How many pieces a split has at least.
pub proof fn lemma_split_nonempty(s: Seq<char>, c: char)
    ensures
        split_on(s, c).len() >= 1,
    decreases s.len(),
{
    if s.len() > 0 {
        lemma_split_nonempty(s.drop_last(), c);
    }
}

/// Splitting at a character and joining the pieces with it gives the text back, and no
/// piece holds the character.
pub proof fn lemma_split_joined(s: Seq<char>, c: char)
    ensures
        joined(split_on(s, c), seq![c]) == s,
        forall|i: int| 0 <= i < split_on(s, c).len() ==> !(#[trigger] split_on(s, c)[i]).contains(c),
    decreases s.len(),
{
    if s.len() > 0 {
        let init = s.drop_last();
        let before = split_on(init, c);
        lemma_split_joined(init, c);
        lemma_split_nonempty(init, c);
        assert(s == init.push(s.last()));
        if s.last() == c {
            let after = before.push(Seq::<char>::empty());
            assert(after.drop_last() == before);
            assert(init + seq![c] + Seq::<char>::empty() == s);
        } else {
            let tail = before.last().push(s.last());
            let after = before.drop_last().push(tail);
            assert(after.drop_last() == before.drop_last());
            assert forall|k: char| k == c implies !tail.contains(k) by {
                if tail.contains(c) {
                    let j = choose|j: int| 0 <= j < tail.len() && tail[j] == c;
                    assert(before.last()[j] == c);
                }
            }
            if before.len() == 1 {
                assert(after.len() == 1);
                assert(tail == s);
            } else {
                assert(joined(after, seq![c]) == joined(before.drop_last(), seq![c]) + seq![c] + tail);
                assert(joined(before.drop_last(), seq![c]) + seq![c] + tail == (joined(
                    before.drop_last(),
                    seq![c],
                ) + seq![c] + before.last()).push(s.last()));
            }
        }
    }
}

/// The last piece of a split is what stands after the last copy of the character.
pub proof fn lemma_tail(s: Seq<char>, c: char)
    ensures
        split_on(s, c).last().len() <= s.len(),
        s.skip(s.len() - split_on(s, c).last().len()) == split_on(s, c).last(),
        split_on(s, c).last().len() < s.len() ==> s[s.len() - split_on(s, c).last().len() - 1] == c,
        !split_on(s, c).last().contains(c),
    decreases s.len(),
{
    lemma_split_nonempty(s, c);
    lemma_split_joined(s, c);
    let t = split_on(s, c).last();
    assert(t == split_on(s, c)[split_on(s, c).len() - 1]);
    if s.len() > 0 {
        lemma_tail(s.drop_last(), c);
        lemma_split_nonempty(s.drop_last(), c);
        let before = split_on(s.drop_last(), c).last();
        if s.last() != c {
            assert(t == before.push(s.last()));
            assert forall|i: int| 0 <= i < before.len() implies s[s.len() - t.len() + i]
                == before[i] by {
                assert(s.drop_last().skip(s.len() - 1 - before.len())[i] == before[i]);
            }
        }
        assert(s.skip(s.len() - t.len()) =~= t);
    }
}

/// What stands after the last copy of the character is the last piece of a split.
pub proof fn lemma_tail_unique(s: Seq<char>, c: char, t: Seq<char>)
    requires
        t.len() <= s.len(),
        s.skip(s.len() - t.len()) == t,
        t.len() < s.len() ==> s[s.len() - t.len() - 1] == c,
        !t.contains(c),
    ensures
        split_on(s, c).last() == t,
{
    let u = split_on(s, c).last();
    lemma_tail(s, c);
    if t.len() < u.len() {
        assert(s.skip(s.len() - u.len())[u.len() - t.len() - 1] == c);
    }
    if u.len() < t.len() {
        assert(s.skip(s.len() - t.len())[t.len() - u.len() - 1] == c);
    }
}

/// The pieces of `s` between the copies of `c`.
pub fn split(s: &[char], c: char) -> (r: Vec<Vec<char>>)
    ensures
        char_seqs(r@) == split_on(s@, c),
        r@.len() >= 1,
{
    let mut done: Vec<Vec<char>> = Vec::new();
    let mut cur: Vec<char> = Vec::new();
    let mut i: usize = 0;
    proof {
        assert(char_seqs(done@).push(cur@) == split_on(s@.take(0), c));
    }
    while i < s.len()
        invariant
            i <= s@.len(),
            char_seqs(done@).push(cur@) == split_on(s@.take(i as int), c),
        decreases s@.len() - i,
    {
        let ghost pieces = char_seqs(done@).push(cur@);
        proof {
            assert(s@.take(i + 1).drop_last() == s@.take(i as int));
            assert(pieces.drop_last() == char_seqs(done@));
        }
        if s[i] == c {
            done.push(cur);
            cur = Vec::new();
            proof {
                assert(char_seqs(done@) == pieces);
            }
        } else {
            cur.push(s[i]);
        }
        i = i + 1;
    }
    proof {
        assert(s@.take(i as int) == s@);
    }
    let ghost old_done = done@;
    let ghost last = cur@;
    done.push(cur);
    proof {
        assert(char_seqs(done@) == char_seqs(old_done).push(last));
    }
    done
}

/// The lines of a text.
pub fn lines(s: &[char]) -> (r: Vec<Vec<char>>)
    ensures
        char_seqs(r@) == lines_of(s@),
{
    let mut pieces = split(s, '\n');
    let ghost all = char_seqs(pieces@);
    let last = pieces.pop();
    let mut out: Vec<Vec<char>> = Vec::new();
    let ghost ended = all.drop_last().map_values(|l: Seq<char>| without_cr(l));
    proof {
        assert(char_seqs(pieces@) == all.drop_last());
    }
    let mut i: usize = 0;
    while i < pieces.len()
        invariant
            i <= pieces@.len(),
            char_seqs(pieces@) == all.drop_last(),
            ended == all.drop_last().map_values(|l: Seq<char>| without_cr(l)),
            char_seqs(out@) == ended.take(i as int),
        decreases pieces@.len() - i,
    {
        let line: &[char] = pieces[i].as_slice();
        proof {
            assert(char_seqs(pieces@)[i as int] == line@);
            assert(ended[i as int] == without_cr(line@));
        }
        let n: usize = line.len();
        let kept: &[char] = if n > 0 && line[n - 1] == '\r' {
            slice_subrange(line, 0, n - 1)
        } else {
            line
        };
        let ghost before = out@;
        let kept = copy(kept);
        proof {
            assert(kept@ == without_cr(line@));
        }
        let ghost k = kept@;
        out.push(kept);
        proof {
            assert(char_seqs(out@) == char_seqs(before).push(k));
            assert(ended.take(i + 1) == ended.take(i as int).push(ended[i as int]));
        }
        i = i + 1;
    }
    proof {
        assert(ended.take(i as int) == ended);
    }
    match last {
        Some(l) => {
            proof {
                assert(l@ == all.last());
            }
            if l.len() > 0 {
                let ghost before = out@;
                out.push(l);
                proof {
                    assert(char_seqs(out@) == char_seqs(before).push(l@));
                }
            }
        },
        None => {},
    }
    out
}

/// A copy of a slice of characters.
pub fn copy(s: &[char]) -> (r: Vec<char>)
    ensures
        r@ == s@,
{
    vstd::slice::slice_to_vec(s)
}

/// The first word of `s`: the characters up to the first white space after any at the
/// start. There is none where `s` is all white space.
pub open spec fn first_word_of(s: Seq<char>) -> Option<Seq<char>> {
    let t = left_trimmed(s);
    if t.len() == 0 {
        None
    } else {
        Some(word_prefix(t))
    }
}

/// `s` up to its first white space.
pub open spec fn word_prefix(s: Seq<char>) -> Seq<char>
    decreases s.len(),
{
    if s.len() == 0 || white(s[0]) {
        Seq::<char>::empty()
    } else {
        seq![s[0]] + word_prefix(s.skip(1))
    }
}

/// The first word of `s`.
pub fn first_word(s: &[char]) -> (r: Option<&[char]>)
    ensures
        opt_slice(r) == first_word_of(s@),
{
    let t = trim_start(s);
    if t.len() == 0 {
        return None;
    }
    let mut i: usize = 0;
    proof {
        assert(t@.skip(0) == t@);
        assert(t@.take(0) + word_prefix(t@) == word_prefix(t@));
    }
    while i < t.len() && !is_white(t[i])
        invariant
            i <= t@.len(),
            word_prefix(t@) == t@.take(i as int) + word_prefix(t@.skip(i as int)),
        decreases t@.len() - i,
    {
        proof {
            let rest = t@.skip(i as int);
            assert(rest.skip(1) == t@.skip(i + 1));
            assert(t@.take(i as int) + (seq![rest[0]] + word_prefix(rest.skip(1))) == t@.take(i + 1)
                + word_prefix(t@.skip(i + 1)));
        }
        i = i + 1;
    }
    proof {
        assert(word_prefix(t@.skip(i as int)) == Seq::<char>::empty());
        assert(t@.take(i as int) + Seq::<char>::empty() == t@.subrange(0, i as int));
    }
    Some(slice_subrange(t, 0, i))
}

/// The strings of `parts` one after the other, with `sep` between neighbours.
pub fn join(parts: &Vec<String>, sep: &str) -> (r: String)
    ensures
        r@ == joined(texts(parts@), sep@),
{
    let mut out = String::new();
    let ghost all = texts(parts@);
    let mut i: usize = 0;
    while i < parts.len()
        invariant
            i <= parts@.len(),
            all == texts(parts@),
            out@ == joined(all.take(i as int), sep@),
        decreases parts@.len() - i,
    {
        proof {
            assert(all.take(i + 1).drop_last() == all.take(i as int));
            assert(all.take(i + 1).last() == parts@[i as int]@);
        }
        if i > 0 {
            out.append(sep);
        }
        out.append(parts[i].as_str());
        proof {
            if i == 0 {
                assert(Seq::<char>::empty() + parts@[0]@ == parts@[0]@);
            }
        }
        i = i + 1;
    }
    proof {
        assert(all.take(i as int) == all);
    }
    out
}

// ---------------------------------------------------------------------------
// Whole strings
// ---------------------------------------------------------------------------

/// Whether two strings hold the same characters.
pub fn equal(a: &str, b: &str) -> (r: bool)
    ensures
        r == (a@ == b@),
{
    let a = to_chars(a);
    let b = to_chars(b);
    same(a.as_slice(), b.as_slice())
}

/// Whether `s` contains `p`.
pub fn str_contains(s: &str, p: &str) -> (r: bool)
    ensures
        r == contains_text(s@, p@),
{
    contains(to_chars(s).as_slice(), p)
}

/// Whether `s` starts with `p`.
pub fn str_starts_with(s: &str, p: &str) -> (r: bool)
    ensures
        r == p@.is_prefix_of(s@),
{
    starts_with(to_chars(s).as_slice(), p)
}

/// `r` is the first position below `n` for which `p` holds; there is none where `r` is
/// `None`.
pub open spec fn is_first(r: Option<usize>, n: nat, p: spec_fn(int) -> bool) -> bool {
    match r {
        Some(i) => i < n && p(i as int) && forall|k: int| 0 <= k < i ==> !(#[trigger] p(k)),
        None => forall|k: int| 0 <= k < n ==> !(#[trigger] p(k)),
    }
}

/// The position of the first string of `v` that is `s`.
pub fn position(v: &Vec<String>, s: &str) -> (r: Option<usize>)
    ensures
        is_first(r, v@.len(), |k: int| v@[k]@ == s@),
        r is Some <==> texts(v@).contains(s@),
{
    let mut i: usize = 0;
    while i < v.len()
        invariant
            i <= v@.len(),
            forall|k: int| 0 <= k < i ==> v@[k]@ != s@,
        decreases v@.len() - i,
    {
        if equal(v[i].as_str(), s) {
            proof {
                assert(texts(v@)[i as int] == s@);
            }
            return Some(i);
        }
        i = i + 1;
    }
    proof {
        assert forall|k: int| 0 <= k < texts(v@).len() implies texts(v@)[k] != s@ by {}
    }
    None
}

/// The sequence with every `a` made a `b`.
pub open spec fn with_char_replaced(s: Seq<char>, a: char, b: char) -> Seq<char> {
    s.map_values(|c: char| if c == a { b } else { c })
}

/// `s` with every `a` made a `b`.
pub fn replace_char(s: &str, a: char, b: char) -> (r: String)
    ensures
        r@ == with_char_replaced(s@, a, b),
{
    let chars = to_chars(s);
    let mut out: Vec<char> = Vec::new();
    let mut i: usize = 0;
    while i < chars.len()
        invariant
            i <= chars@.len(),
            chars@ == s@,
            out@ == with_char_replaced(s@, a, b).take(i as int),
        decreases chars@.len() - i,
    {
        out.push(if chars[i] == a { b } else { chars[i] });
        i = i + 1;
    }
    string_of(out.as_slice())
}

/// `s` with the first `from` made a `to`; `s` itself where there is none.
pub open spec fn with_first_replaced(s: Seq<char>, from: Seq<char>, to: Seq<char>) -> Seq<char> {
    match first_at(s, from) {
        Some(i) => s.take(i) + to + s.skip(i + from.len()),
        None => s,
    }
}

/// `s` with the first `from` made a `to`.
pub fn replace_first(s: &str, from: &str, to: &str) -> (r: String)
    ensures
        r@ == with_first_replaced(s@, from@, to@),
{
    let chars = to_chars(s);
    let c: &[char] = chars.as_slice();
    match find(c, from) {
        Some(i) => {
            let n: usize = c.len();
            let end: usize = i + to_chars(from).len();
            let mut out = string_of(slice_subrange(c, 0, i));
            out.append(to);
            out.append(string_of(slice_subrange(c, end, n)).as_str());
            proof {
                assert(s@.take(i as int) == s@.subrange(0, i as int));
                assert(s@.skip(end as int) == s@.subrange(end as int, n as int));
            }
            out
        },
        None => string_of(c),
    }
}

// ---------------------------------------------------------------------------
// Lists of texts
// ---------------------------------------------------------------------------

/// The first result that `f` gives for an element of `l`.
pub open spec fn first_some(
    l: Seq<Seq<char>>,
    f: spec_fn(Seq<char>) -> Option<Seq<char>>,
) -> Option<Seq<char>>
    decreases l.len(),
{
    if l.len() == 0 {
        None
    } else {
        match f(l[0]) {
            Some(v) => Some(v),
            None => first_some(l.skip(1), f),
        }
    }
}

/// The elements of `l` with every later copy of an element left out.
pub open spec fn first_copies(l: Seq<Seq<char>>) -> Seq<Seq<char>>
    decreases l.len(),
{
    if l.len() == 0 {
        l
    } else {
        let before = first_copies(l.drop_last());
        if before.contains(l.last()) {
            before
        } else {
            before.push(l.last())
        }
    }
}

/// The elements that are left are those of the list, each once.
pub proof fn lemma_first_copies(l: Seq<Seq<char>>)
    ensures
        first_copies(l).no_duplicates(),
        forall|x: Seq<char>| #[trigger] first_copies(l).contains(x) <==> l.contains(x),
    decreases l.len(),
{
    if l.len() > 0 {
        let init = l.drop_last();
        let before = first_copies(init);
        lemma_first_copies(init);
        assert(l == init.push(l.last()));
        assert forall|x: Seq<char>| #[trigger] first_copies(l).contains(x) <==> l.contains(x) by {
            if l.contains(x) {
                let k = choose|k: int| 0 <= k < l.len() && l[k] == x;
                if k < init.len() {
                    assert(init[k] == x);
                    assert(init.contains(x));
                    assert(first_copies(init).contains(x));
                    let j = choose|j: int| 0 <= j < before.len() && before[j] == x;
                    assert(first_copies(l)[j] == x);
                } else if !before.contains(l.last()) {
                    assert(before.push(l.last())[before.len() as int] == x);
                }
            }
            if first_copies(l).contains(x) {
                let j = choose|j: int| 0 <= j < first_copies(l).len() && first_copies(l)[j] == x;
                if j < before.len() {
                    assert(before[j] == x);
                    assert(first_copies(init).contains(x));
                    let k = choose|k: int| 0 <= k < init.len() && init[k] == x;
                    assert(l[k] == x);
                } else {
                    assert(l[l.len() - 1] == x);
                }
            }
        }
    }
}

/// Splitting what a character joins gives the pieces back, where none holds it.
pub proof fn lemma_joined_split(parts: Seq<Seq<char>>, c: char)
    requires
        parts.len() > 0,
        forall|i: int| 0 <= i < parts.len() ==> !(#[trigger] parts[i]).contains(c),
    ensures
        split_on(joined(parts, seq![c]), c) == parts,
    decreases parts.len(),
{
    let last = parts.last();
    assert(!last.contains(c));
    if parts.len() == 1 {
        lemma_split_appended(Seq::<char>::empty(), last, c);
        assert(Seq::<char>::empty() + last == parts[0]);
        assert(split_on(Seq::<char>::empty(), c) == seq![Seq::<char>::empty()]);
        assert(seq![Seq::<char>::empty()].drop_last().push(seq![Seq::<char>::empty()].last() + last)
            == parts);
    } else {
        let init = parts.drop_last();
        assert forall|i: int| 0 <= i < init.len() implies !(#[trigger] init[i]).contains(c) by {
            assert(init[i] == parts[i]);
        }
        lemma_joined_split(init, c);
        let head = joined(init, seq![c]) + seq![c];
        assert(head.drop_last() == joined(init, seq![c]));
        assert(split_on(head, c) == init.push(Seq::<char>::empty()));
        lemma_split_appended(head, last, c);
        assert(init.push(Seq::<char>::empty()).drop_last() == init);
        assert(Seq::<char>::empty() + last == last);
        assert(init.push(last) == parts);
    }
}

/// A text without the separator lengthens the last piece of a split.
pub proof fn lemma_split_appended(s: Seq<char>, t: Seq<char>, c: char)
    requires
        !t.contains(c),
    ensures
        split_on(s + t, c) == split_on(s, c).drop_last().push(split_on(s, c).last() + t),
    decreases t.len(),
{
    lemma_split_nonempty(s, c);
    let p = split_on(s, c);
    if t.len() == 0 {
        assert(s + t == s);
        assert(p.last() + t == p.last());
        assert(p.drop_last().push(p.last()) == p);
    } else {
        let init = t.drop_last();
        assert forall|k: int| 0 <= k < init.len() implies init[k] != c by {
            assert(t[k] == init[k]);
        }
        lemma_split_appended(s, init, c);
        assert((s + t).drop_last() == s + init);
        assert(t[t.len() - 1] == t.last());
        let q = p.drop_last().push(p.last() + init);
        assert(q.drop_last() == p.drop_last());
        assert((p.last() + init).push(t.last()) == p.last() + t);
    }
}

} // verus!
