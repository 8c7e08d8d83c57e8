//! What running commands print: the lines that are kept, and what is copied of them.
use vstd::prelude::*;
use vstd::string::StringSliceAdditionalSpecFns;

use crate::number::{decimal, to_decimal};
use crate::platform::{
    base64_encode, base64_text, decoded, from_utf8_lossy, in_base64, lemma_base64_text, string_of,
};
use crate::text::{
    char_seqs, joined, lemma_joined_split, lemma_split_joined, lemma_split_nonempty, split, split_on,
    to_chars, trim_end_newlines, without_trailing,
};

verus! {

/// How many lines of output are kept.
pub const MAX_LINES: usize = 200;

/// How many milliseconds pass between two updates of the display.
pub const REFRESH_MILLIS: u64 = 100;

// ---------------------------------------------------------------------------
// Keeping lines
// ---------------------------------------------------------------------------

/// How many line feeds a text has.
pub open spec fn line_feeds(s: Seq<char>) -> int {
    split_on(s, '\n').len() - 1
}

/// A text without its first lines, so that no more than `MAX_LINES` line feeds are left.
pub open spec fn kept_lines(s: Seq<char>) -> Seq<char> {
    if line_feeds(s) > MAX_LINES {
        joined(split_on(s, '\n').skip(line_feeds(s) - MAX_LINES), seq!['\n'])
    } else {
        s
    }
}

/// The last line feeds and what stands between and after them are kept; what is kept ends
/// the text, and all is kept where there are not too many.
pub proof fn lemma_kept_lines(s: Seq<char>)
    ensures
        line_feeds(kept_lines(s)) <= MAX_LINES,
        line_feeds(s) > MAX_LINES ==> line_feeds(kept_lines(s)) == MAX_LINES,
        line_feeds(s) <= MAX_LINES ==> kept_lines(s) == s,
        kept_lines(s).is_suffix_of(s),
{
    let pieces = split_on(s, '\n');
    lemma_split_nonempty(s, '\n');
    lemma_split_joined(s, '\n');
    if line_feeds(s) > MAX_LINES {
        let k = line_feeds(s) - MAX_LINES;
        let rest = pieces.skip(k);
        assert forall|i: int| 0 <= i < rest.len() implies !(#[trigger] rest[i]).contains('\n') by {
            assert(rest[i] == pieces[i + k]);
        }
        lemma_joined_split(rest, '\n');
        lemma_joined_suffix(pieces, k, seq!['\n']);
    } else {
        assert(s.subrange(s.len() - s.len(), s.len() as int) == s);
    }
}

/// The last pieces joined end all pieces joined.
proof fn lemma_joined_suffix(parts: Seq<Seq<char>>, k: int, sep: Seq<char>)
    requires
        0 <= k < parts.len(),
    ensures
        joined(parts.skip(k), sep).is_suffix_of(joined(parts, sep)),
    decreases parts.len(),
{
    let last = parts.last();
    let rest = parts.skip(k);
    let x = joined(parts, sep);
    let y = joined(rest, sep);
    if k == parts.len() - 1 {
        assert(rest == seq![last]);
        assert(y == last);
    } else {
        let init = parts.drop_last();
        lemma_joined_suffix(init, k, sep);
        assert(rest.drop_last() == init.skip(k));
        let a = joined(init, sep);
        let b = joined(init.skip(k), sep);
        assert(x == a + sep + last);
        assert(y == b + sep + last);
        assert forall|i: int| 0 <= i < y.len() implies x[x.len() - y.len() + i] == y[i] by {
            if i < b.len() {
                assert(a.subrange(a.len() - b.len(), a.len() as int)[i] == b[i]);
            }
        }
    }
    assert(x.subrange(x.len() - y.len(), x.len() as int) =~= y);
}

/// Appends a line to the output and drops the first lines where there are too many.
pub fn append_line(output: &mut String, line: &str)
    ensures
        final(output)@ == kept_lines(old(output)@ + line@ + "\n"@),
{
    output.append(line);
    output.append("\n");
    let pieces = split(to_chars(output.as_str()).as_slice(), '\n');
    let ghost all = char_seqs(pieces@);
    let n: usize = pieces.len();
    if n - 1 > MAX_LINES {
        let first: usize = n - 1 - MAX_LINES;
        let ghost rest = all.skip(first as int);
        let mut out = string_of(pieces[first].as_slice());
        let mut i: usize = first + 1;
        proof {
            assert(rest.take(1) =~= seq![pieces@[first as int]@]);
        }
        while i < n
            invariant
                n == pieces@.len(),
                first < i <= n,
                all == char_seqs(pieces@),
                rest == all.skip(first as int),
                out@ == joined(rest.take(i - first), seq!['\n']),
            decreases n - i,
        {
            proof {
                reveal_strlit("\n");
                assert("\n"@ =~= seq!['\n']);
                assert(rest.take(i + 1 - first).drop_last() == rest.take(i - first));
                assert(rest.take(i + 1 - first).last() == pieces@[i as int]@);
            }
            out.append("\n");
            out.append(string_of(pieces[i].as_slice()).as_str());
            i = i + 1;
        }
        proof {
            assert(rest.take(n - first) == rest);
        }
        *output = out;
    }
}

/// A line as a process wrote it, without its line terminators.
pub fn clean_line(bytes: &[u8]) -> (r: String)
    ensures
        r@ == without_trailing(decoded(bytes@), |x: char| x == '\r' || x == '\n'),
{
    let text = from_utf8_lossy(bytes);
    string_of(trim_end_newlines(to_chars(text.as_str()).as_slice()))
}

/// Whether the display is to be updated, this long after the last time.
pub fn refresh_due(elapsed_millis: u64) -> (r: bool)
    ensures
        r == (elapsed_millis >= REFRESH_MILLIS),
{
    elapsed_millis >= REFRESH_MILLIS
}

// ---------------------------------------------------------------------------
// Copying
// ---------------------------------------------------------------------------

/// The control sequence that makes a terminal put the text with this base64 notation on the
/// clipboard.
pub open spec fn osc52_of(encoded: Seq<char>) -> Seq<char> {
    "\x1b]52;c;"@ + encoded + "\x1b\\"@
}

/// The control sequence that makes a terminal put the text with this base64 notation on the
/// clipboard.
pub fn osc52_sequence(encoded: &str) -> (r: String)
    ensures
        r@ == osc52_of(encoded@),
{
    let mut out = "\x1b]52;c;".to_owned();
    out.append(encoded);
    out.append("\x1b\\");
    out
}

/// The control sequence that makes a terminal put `text` on the clipboard. What it carries
/// cannot end it early: no character of it is an escape.
pub fn clipboard_sequence(text: &str) -> (r: String)
    requires
        text.spec_bytes().len() <= isize::MAX / 2,
    ensures
        r@ == osc52_of(base64_text(text.spec_bytes())),
        forall|i: int|
            0 <= i < base64_text(text.spec_bytes()).len() ==> in_base64(
                #[trigger] base64_text(text.spec_bytes())[i],
            ),
{
    proof {
        lemma_base64_text(text.spec_bytes());
    }
    osc52_sequence(base64_encode(text).as_str())
}

/// What the user is told after copying the output of `bytes` bytes.
pub open spec fn copy_text(bytes: nat, copied: bool) -> Seq<char> {
    if bytes == 0 {
        "Nothing to copy"@
    } else if copied {
        "Copied "@ + decimal(bytes) + " bytes to clipboard"@
    } else {
        "Failed to copy to clipboard"@
    }
}

/// What the user is told after copying the output of `bytes` bytes.
pub fn copy_message(bytes: usize, copied: bool) -> (r: String)
    ensures
        r@ == copy_text(bytes as nat, copied),
{
    if bytes == 0 {
        return "Nothing to copy".to_owned();
    }
    if !copied {
        return "Failed to copy to clipboard".to_owned();
    }
    let mut out = "Copied ".to_owned();
    out.append(to_decimal(bytes as u64).as_str());
    out.append(" bytes to clipboard");
    out
}

} // verus!
