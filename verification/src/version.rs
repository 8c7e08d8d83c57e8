//! Versions and targets in what compilers print about themselves.
use vstd::prelude::*;
use vstd::slice::slice_subrange;

use crate::number::{all_digits, parse, parsed};
use crate::platform::string_of;
use crate::text::{
    after_prefix, char_seqs, digit, find, first_at, first_some, first_word, first_word_of, is_digit,
    joined, left_trimmed, lemma_joined_split, lemma_split_joined, lemma_split_nonempty, lines,
    lines_of, opt_slice, opt_text, split, split_on, strip_prefix, to_chars, trim, trim_end_char,
    trim_start, trimmed, without_trailing,
};

verus! {

// ---------------------------------------------------------------------------
// Three-part versions
// ---------------------------------------------------------------------------

/// The characters that a version consists of.
pub open spec fn version_char(c: char) -> bool {
    digit(c) || c == '.'
}

/// How many version characters `s` starts with.
pub open spec fn run_len(s: Seq<char>) -> nat
    decreases s.len(),
{
    if s.len() > 0 && version_char(s[0]) {
        1 + run_len(s.skip(1))
    } else {
        0
    }
}

/// The version in a run of digits and dots: its first three numbers. The run, without the
/// dots at its end, must consist of at least three numbers with single dots between them.
pub open spec fn version_in_run(run: Seq<char>) -> Option<Seq<char>> {
    let parts = split_on(without_trailing(run, |x: char| x == '.'), '.');
    if parts.len() >= 3 && forall|i: int| 0 <= i < parts.len() ==> (#[trigger] parts[i]).len() > 0 {
        Some(joined(parts.take(3), seq!['.']))
    } else {
        None
    }
}

/// The version in the first run of digits and dots that starts with a digit and holds one.
pub open spec fn version_in(s: Seq<char>) -> Option<Seq<char>>
    decreases s.len(),
{
    if s.len() == 0 {
        None
    } else if digit(s[0]) {
        let n = run_len(s);
        proof {
            lemma_run_len(s);
        }
        match version_in_run(s.take(n as int)) {
            Some(v) => Some(v),
            None => version_in(s.skip(n as int)),
        }
    } else {
        version_in(s.skip(1))
    }
}

/// A run ends within the text and consists of version characters.
pub proof fn lemma_run_len(s: Seq<char>)
    ensures
        run_len(s) <= s.len(),
        forall|i: int| 0 <= i < run_len(s) ==> version_char(#[trigger] s[i]),
        s.len() > 0 && digit(s[0]) ==> run_len(s) >= 1,
    decreases s.len(),
{
    if s.len() > 0 && version_char(s[0]) {
        lemma_run_len(s.skip(1));
        assert forall|i: int| 0 <= i < run_len(s) implies version_char(#[trigger] s[i]) by {
            if i > 0 {
                assert(s.skip(1)[i - 1] == s[i]);
            }
        }
    }
}

/// Dropping characters at the end leaves a prefix.
proof fn lemma_without_trailing_prefix(s: Seq<char>, drop: spec_fn(char) -> bool)
    ensures
        without_trailing(s, drop).len() <= s.len(),
        without_trailing(s, drop) == s.take(without_trailing(s, drop).len() as int),
    decreases s.len(),
{
    if s.len() > 0 && drop(s.last()) {
        lemma_without_trailing_prefix(s.drop_last(), drop);
        let n = without_trailing(s, drop).len() as int;
        assert(s.drop_last().take(n) == s.take(n));
    } else {
        assert(s.take(s.len() as int) == s);
    }
}

/// The pieces between the dots of a run of version characters consist of digits.
proof fn lemma_pieces_digits(s: Seq<char>)
    requires
        forall|i: int| 0 <= i < s.len() ==> version_char(#[trigger] s[i]),
    ensures
        forall|i: int|
            0 <= i < split_on(s, '.').len() ==> all_digits(#[trigger] split_on(s, '.')[i]),
    decreases s.len(),
{
    if s.len() > 0 {
        let init = s.drop_last();
        assert forall|i: int| 0 <= i < init.len() implies version_char(#[trigger] init[i]) by {
            assert(s[i] == init[i]);
        }
        lemma_pieces_digits(init);
        lemma_split_nonempty(init, '.');
        assert(version_char(s[s.len() - 1]));
        let before = split_on(init, '.');
        assert(all_digits(before[before.len() - 1]));
    }
}

/// A version that is found consists of exactly three numbers with single dots between them.
pub proof fn lemma_version_shape(s: Seq<char>)
    ensures
        version_in(s) matches Some(v) ==> {
            &&& split_on(v, '.').len() == 3
            &&& forall|i: int|
                0 <= i < 3 ==> (#[trigger] split_on(v, '.')[i]).len() > 0 && all_digits(
                    split_on(v, '.')[i],
                )
        },
    decreases s.len(),
{
    if s.len() > 0 {
        if digit(s[0]) {
            lemma_run_len(s);
            let run = s.take(run_len(s) as int);
            match version_in_run(run) {
                Some(v) => {
                    let kept = without_trailing(run, |x: char| x == '.');
                    lemma_without_trailing_prefix(run, |x: char| x == '.');
                    assert forall|i: int| 0 <= i < kept.len() implies version_char(
                        #[trigger] kept[i],
                    ) by {
                        assert(kept[i] == run[i]);
                        assert(run[i] == s[i]);
                    }
                    let parts = split_on(kept, '.');
                    lemma_pieces_digits(kept);
                    lemma_split_joined(kept, '.');
                    let three = parts.take(3);
                    assert forall|i: int| 0 <= i < 3 implies !(#[trigger] three[i]).contains(
                        '.',
                    ) && three[i].len() > 0 && all_digits(three[i]) by {
                        assert(three[i] == parts[i]);
                        assert(all_digits(split_on(kept, '.')[i]));
                    }
                    lemma_joined_split(three, '.');
                },
                None => {
                    lemma_version_shape(s.skip(run_len(s) as int));
                },
            }
        } else {
            lemma_version_shape(s.skip(1));
        }
    }
}

/// The version in a run of digits and dots.
fn run_version(run: &[char]) -> (r: Option<String>)
    ensures
        opt_text(r) == version_in_run(run@),
{
    let parts = split(trim_end_char(run, '.'), '.');
    let ghost all = char_seqs(parts@);
    if parts.len() < 3 {
        return None;
    }
    let mut i: usize = 0;
    while i < parts.len()
        invariant
            i <= parts@.len(),
            all == char_seqs(parts@),
            all == split_on(without_trailing(run@, |x: char| x == '.'), '.'),
            forall|k: int| 0 <= k < i ==> (#[trigger] all[k]).len() > 0,
        decreases parts@.len() - i,
    {
        proof {
            assert(all[i as int] == parts@[i as int]@);
        }
        if parts[i].len() == 0 {
            return None;
        }
        i = i + 1;
    }
    let mut out = string_of(parts[0].as_slice());
    out.append(".");
    out.append(string_of(parts[1].as_slice()).as_str());
    out.append(".");
    out.append(string_of(parts[2].as_slice()).as_str());
    proof {
        reveal_strlit(".");
        assert("."@ =~= seq!['.']);
        let three = all.take(3);
        assert(three.drop_last().drop_last() =~= seq![all[0]]);
        assert(joined(seq![all[0]], seq!['.']) == all[0]);
        assert(joined(three.drop_last(), seq!['.']) == all[0] + seq!['.'] + all[1]);
        assert(joined(three, seq!['.']) == all[0] + seq!['.'] + all[1] + seq!['.'] + all[2]);
    }
    Some(out)
}

/// The first three-part version in a text.
pub fn extract_version(text: &str) -> (r: Option<String>)
    ensures
        opt_text(r) == version_in(text@),
{
    let chars = to_chars(text);
    let s: &[char] = chars.as_slice();
    let n: usize = s.len();
    let mut i: usize = 0;
    proof {
        assert(s@.skip(0) == s@);
    }
    while i < n
        invariant
            n == s@.len(),
            s@ == text@,
            i <= n,
            version_in(s@) == version_in(s@.skip(i as int)),
        decreases n - i,
    {
        if is_digit(s[i]) {
            let start: usize = i;
            let ghost rest = s@.skip(start as int);
            while i < n && (is_digit(s[i]) || s[i] == '.')
                invariant
                    n == s@.len(),
                    start <= i <= n,
                    rest == s@.skip(start as int),
                    run_len(rest) == (i - start) + run_len(s@.skip(i as int)),
                decreases n - i,
            {
                proof {
                    assert(s@.skip(i as int).skip(1) == s@.skip(i + 1));
                }
                i = i + 1;
            }
            proof {
                lemma_run_len(rest);
                assert(run_len(rest) == i - start);
                assert(rest.take(i - start) == s@.subrange(start as int, i as int));
                assert(rest.skip(i - start) == s@.skip(i as int));
            }
            match run_version(slice_subrange(s, start, i)) {
                Some(v) => {
                    return Some(v);
                },
                None => {},
            }
        } else {
            proof {
                assert(s@.skip(i as int).skip(1) == s@.skip(i + 1));
            }
            i = i + 1;
        }
    }
    None
}

// ---------------------------------------------------------------------------
// Versions that follow a label
// ---------------------------------------------------------------------------

/// The first word of `s` without the dots at its end, unless nothing is left.
pub open spec fn version_token(s: Seq<char>) -> Option<Seq<char>> {
    match first_word_of(s) {
        Some(w) => {
            let t = without_trailing(w, |x: char| x == '.');
            if t.len() == 0 {
                None
            } else {
                Some(t)
            }
        },
        None => None,
    }
}

/// The version that a line of Clang's output names.
pub open spec fn clang_line_version(line: Seq<char>) -> Option<Seq<char>> {
    let l = left_trimmed(line);
    match first_at(l, "clang version "@) {
        Some(i) => version_token(l.skip(i + "clang version "@.len())),
        None => match first_at(l, "Apple LLVM version "@) {
            Some(i) => version_token(l.skip(i + "Apple LLVM version "@.len())),
            None => None,
        },
    }
}

/// The version that a line of GCC's output names.
pub open spec fn gcc_line_version(line: Seq<char>) -> Option<Seq<char>> {
    let l = left_trimmed(line);
    match after_prefix(l, "gcc version "@) {
        Some(rest) => version_token(rest),
        None => match after_prefix(l, "gcc-version "@) {
            Some(rest) => version_token(rest),
            None => None,
        },
    }
}

/// The target that a line of a compiler's output names.
pub open spec fn line_target(line: Seq<char>) -> Option<Seq<char>> {
    match after_prefix(trimmed(line), "Target: "@) {
        Some(rest) => {
            let t = trimmed(rest);
            if t.len() == 0 {
                None
            } else {
                Some(t)
            }
        },
        None => None,
    }
}

/// The first word of `s` without the dots at its end.
pub fn first_version_token(s: &[char]) -> (r: Option<String>)
    ensures
        opt_text(r) == version_token(s@),
{
    match first_word(s) {
        Some(w) => {
            let t = trim_end_char(w, '.');
            if t.len() == 0 {
                None
            } else {
                Some(string_of(t))
            }
        },
        None => None,
    }
}

/// The text of `s` after the first `label`.
fn after_first<'a>(s: &'a [char], label: &str) -> (r: Option<&'a [char]>)
    ensures
        opt_slice(r) == (match first_at(s@, label@) {
            Some(i) => Some(s@.skip(i + label@.len())),
            None => None,
        }),
{
    match find(s, label) {
        Some(i) => {
            let n: usize = s.len();
            let k: usize = i + to_chars(label).len();
            proof {
                assert(s@.skip(k as int) == s@.subrange(k as int, n as int));
            }
            Some(slice_subrange(s, k, n))
        },
        None => None,
    }
}

/// The version that Clang's output names.
pub fn clang_version(text: &str) -> (r: Option<String>)
    ensures
        opt_text(r) == first_some(lines_of(text@), |l: Seq<char>| clang_line_version(l)),
{
    let ls = lines(to_chars(text).as_slice());
    let ghost all = char_seqs(ls@);
    let ghost f = |l: Seq<char>| clang_line_version(l);
    proof {
        assert(all.skip(0) == all);
    }
    let mut i: usize = 0;
    while i < ls.len()
        invariant
            i <= ls@.len(),
            all == char_seqs(ls@),
            all == lines_of(text@),
            f == (|l: Seq<char>| clang_line_version(l)),
            first_some(all, f) == first_some(all.skip(i as int), f),
        decreases ls@.len() - i,
    {
        let line = trim_start(ls[i].as_slice());
        proof {
            assert(all.skip(i as int)[0] == ls@[i as int]@);
            assert(all.skip(i as int).skip(1) == all.skip(i + 1));
        }
        let rest = match after_first(line, "clang version ") {
            Some(rest) => Some(rest),
            None => after_first(line, "Apple LLVM version "),
        };
        match rest {
            Some(rest) => match first_version_token(rest) {
                Some(v) => {
                    return Some(v);
                },
                None => {},
            },
            None => {},
        }
        i = i + 1;
    }
    None
}

/// The version that GCC's output names.
pub fn gcc_version(text: &str) -> (r: Option<String>)
    ensures
        opt_text(r) == first_some(lines_of(text@), |l: Seq<char>| gcc_line_version(l)),
{
    let ls = lines(to_chars(text).as_slice());
    let ghost all = char_seqs(ls@);
    let ghost f = |l: Seq<char>| gcc_line_version(l);
    proof {
        assert(all.skip(0) == all);
    }
    let mut i: usize = 0;
    while i < ls.len()
        invariant
            i <= ls@.len(),
            all == char_seqs(ls@),
            all == lines_of(text@),
            f == (|l: Seq<char>| gcc_line_version(l)),
            first_some(all, f) == first_some(all.skip(i as int), f),
        decreases ls@.len() - i,
    {
        let line = trim_start(ls[i].as_slice());
        proof {
            assert(all.skip(i as int)[0] == ls@[i as int]@);
            assert(all.skip(i as int).skip(1) == all.skip(i + 1));
        }
        let rest = match strip_prefix(line, "gcc version ") {
            Some(rest) => Some(rest),
            None => strip_prefix(line, "gcc-version "),
        };
        match rest {
            Some(rest) => match first_version_token(rest) {
                Some(v) => {
                    return Some(v);
                },
                None => {},
            },
            None => {},
        }
        i = i + 1;
    }
    None
}

/// The target that a compiler's output names.
pub fn target_triple(text: &str) -> (r: Option<String>)
    ensures
        opt_text(r) == first_some(lines_of(text@), |l: Seq<char>| line_target(l)),
{
    let ls = lines(to_chars(text).as_slice());
    let ghost all = char_seqs(ls@);
    let ghost f = |l: Seq<char>| line_target(l);
    proof {
        assert(all.skip(0) == all);
    }
    let mut i: usize = 0;
    while i < ls.len()
        invariant
            i <= ls@.len(),
            all == char_seqs(ls@),
            all == lines_of(text@),
            f == (|l: Seq<char>| line_target(l)),
            first_some(all, f) == first_some(all.skip(i as int), f),
        decreases ls@.len() - i,
    {
        let line = trim(ls[i].as_slice());
        proof {
            assert(all.skip(i as int)[0] == ls@[i as int]@);
            assert(all.skip(i as int).skip(1) == all.skip(i + 1));
        }
        match strip_prefix(line, "Target: ") {
            Some(rest) => {
                let t = trim(rest);
                if t.len() > 0 {
                    return Some(string_of(t));
                }
            },
            None => {},
        }
        i = i + 1;
    }
    None
}

// ---------------------------------------------------------------------------
// Ordering versions
// ---------------------------------------------------------------------------

/// The numbers between the dots of a version, with zero for what is no number.
pub open spec fn version_numbers(v: Seq<char>) -> Seq<u64> {
    split_on(v, '.').map_values(
        |p: Seq<char>|
            match parsed(p) {
                Some(n) => n,
                None => 0u64,
            },
    )
}

/// The numbers by which versions are ordered.
pub fn version_key(v: &str) -> (r: Vec<u64>)
    ensures
        r@ == version_numbers(v@),
{
    let parts = split(to_chars(v).as_slice(), '.');
    let ghost all = char_seqs(parts@);
    let mut out: Vec<u64> = Vec::new();
    let mut i: usize = 0;
    while i < parts.len()
        invariant
            i <= parts@.len(),
            all == char_seqs(parts@),
            all == split_on(v@, '.'),
            out@ == version_numbers(v@).take(i as int),
        decreases parts@.len() - i,
    {
        proof {
            assert(all[i as int] == parts@[i as int]@);
        }
        out.push(
            match parse(parts[i].as_slice()) {
                Some(n) => n,
                None => 0,
            },
        );
        i = i + 1;
    }
    out
}

/// `a` orders before or with `b`: number by number, the shorter first where it is a prefix.
pub open spec fn key_le(a: Seq<u64>, b: Seq<u64>) -> bool
    decreases a.len(),
{
    if a.len() == 0 {
        true
    } else if b.len() == 0 {
        false
    } else if a[0] != b[0] {
        a[0] < b[0]
    } else {
        key_le(a.skip(1), b.skip(1))
    }
}

/// Whether `a` orders before or with `b`.
pub fn key_not_after(a: &Vec<u64>, b: &Vec<u64>) -> (r: bool)
    ensures
        r == key_le(a@, b@),
{
    let mut i: usize = 0;
    proof {
        assert(a@.skip(0) == a@);
        assert(b@.skip(0) == b@);
    }
    while i < a.len()
        invariant
            i <= a@.len(),
            i <= b@.len(),
            key_le(a@, b@) == key_le(a@.skip(i as int), b@.skip(i as int)),
        decreases a@.len() - i,
    {
        if i >= b.len() {
            return false;
        }
        if a[i] != b[i] {
            return a[i] < b[i];
        }
        proof {
            assert(a@.skip(i as int).skip(1) == a@.skip(i + 1));
            assert(b@.skip(i as int).skip(1) == b@.skip(i + 1));
        }
        i = i + 1;
    }
    true
}

/// The order of versions is total, reflexive and transitive, and orders two keys both ways
/// only where they are equal.
pub proof fn lemma_key_order(a: Seq<u64>, b: Seq<u64>, c: Seq<u64>)
    ensures
        key_le(a, a),
        key_le(a, b) || key_le(b, a),
        key_le(a, b) && key_le(b, c) ==> key_le(a, c),
        key_le(a, b) && key_le(b, a) ==> a == b,
    decreases a.len() + b.len() + c.len(),
{
    if a.len() > 0 && b.len() > 0 && c.len() > 0 {
        lemma_key_order(a.skip(1), b.skip(1), c.skip(1));
        if key_le(a, b) && key_le(b, a) {
            assert(a == seq![a[0]] + a.skip(1));
            assert(b == seq![b[0]] + b.skip(1));
        }
    } else if a.len() > 0 && b.len() > 0 {
        lemma_key_order(a.skip(1), b.skip(1), c);
        if key_le(a, b) && key_le(b, a) {
            assert(a == seq![a[0]] + a.skip(1));
            assert(b == seq![b[0]] + b.skip(1));
        }
    } else if a.len() > 0 {
        lemma_key_order(a.skip(1), b, c);
    } else {
        assert(b.len() == 0 ==> a =~= b);
    }
}

} // verus!
