//! Laws on the output that is kept and copied.
use vstd::prelude::*;

use crate::number::{decimal, lemma_decimal_value, value_of};
use crate::output::{copy_text, kept_lines, osc52_of};
use crate::text::{joined, lemma_joined_split, lines_of, split_on};

verus! {

/// Lines as they stand in the output, each with its line feed.
pub open spec fn written(lines: Seq<Seq<char>>) -> Seq<char>
    decreases lines.len(),
{
    if lines.len() == 0 {
        Seq::<char>::empty()
    } else {
        written(lines.drop_last()) + lines.last() + seq!['\n']
    }
}

/// Whether no line holds a line feed.
pub open spec fn single_lines(lines: Seq<Seq<char>>) -> bool {
    forall|i: int| 0 <= i < lines.len() ==> !(#[trigger] lines[i]).contains('\n')
}

/// Lines and what follows them, joined with line feeds.
proof fn lemma_written(lines: Seq<Seq<char>>, rest: Seq<char>)
    ensures
        joined(lines.push(rest), seq!['\n']) == written(lines) + rest,
    decreases lines.len(),
{
    let all = lines.push(rest);
    assert(all.drop_last() =~= lines);
    if lines.len() == 0 {
        assert(joined(all, seq!['\n']) =~= written(lines) + rest);
    } else {
        let init = lines.drop_last();
        lemma_written(init, lines.last());
        assert(init.push(lines.last()) =~= lines);
        assert(joined(all, seq!['\n']) =~= written(lines) + rest);
    }
}

/// Lines and what follows them, split at line feeds.
proof fn lemma_written_split(lines: Seq<Seq<char>>, rest: Seq<char>)
    requires
        single_lines(lines),
        !rest.contains('\n'),
    ensures
        split_on(written(lines) + rest, '\n') == lines.push(rest),
{
    lemma_written(lines, rest);
    let all = lines.push(rest);
    assert forall|i: int| 0 <= i < all.len() implies !(#[trigger] all[i]).contains('\n') by {
        if i < lines.len() {
            assert(all[i] == lines[i]);
        }
    }
    lemma_joined_split(all, '\n');
}

/// Of up to 200 lines all are kept, and of more the last 200.
pub proof fn law_output_kept(lines: Seq<Seq<char>>)
    requires
        single_lines(lines),
    ensures
        lines.len() <= 200 ==> kept_lines(written(lines)) == written(lines),
        lines.len() > 200 ==> kept_lines(written(lines)) == written(lines.skip(lines.len() - 200)),
{
    let none = Seq::<char>::empty();
    lemma_written_split(lines, none);
    assert(written(lines) + none =~= written(lines));
    if lines.len() > 200 {
        let k = lines.len() - 200;
        assert(lines.push(none).skip(k) =~= lines.skip(k).push(none));
        lemma_written(lines.skip(k), none);
        assert(written(lines.skip(k)) + none =~= written(lines.skip(k)));
    }
}

/// A line that comes to the output stands at its end, and pushes out the first line where there
/// were 200.
pub proof fn law_line_appended(lines: Seq<Seq<char>>, line: Seq<char>)
    requires
        single_lines(lines),
        !line.contains('\n'),
    ensures
        lines.len() < 200 ==> kept_lines(written(lines) + line + "\n"@) == written(lines) + line
            + "\n"@,
        lines.len() == 200 ==> kept_lines(written(lines) + line + "\n"@) == written(lines.skip(1))
            + line + "\n"@,
{
    let all = lines.push(line);
    reveal_strlit("\n");
    assert("\n"@ =~= seq!['\n']);
    assert(all.drop_last() =~= lines);
    assert forall|i: int| 0 <= i < all.len() implies !(#[trigger] all[i]).contains('\n') by {
        if i < lines.len() {
            assert(all[i] == lines[i]);
        }
    }
    law_output_kept(all);
    if lines.len() == 200 {
        assert(all.skip(1) =~= lines.skip(1).push(line));
        assert(lines.skip(1).push(line).drop_last() =~= lines.skip(1));
    }
}

/// A text is read line by line: each line that ended with a line feed, without the carriage
/// return before it, and what follows the last line feed where anything does.
pub proof fn law_lines(lines: Seq<Seq<char>>, rest: Seq<char>)
    requires
        single_lines(lines),
        !rest.contains('\n'),
    ensures
        ({
            let read = lines_of(written(lines) + rest);
            &&& read.len() == lines.len() + if rest.len() > 0 {
                1int
            } else {
                0
            }
            &&& rest.len() > 0 ==> read.last() == rest
            &&& forall|i: int|
                0 <= i < lines.len() ==> #[trigger] read[i] == if lines[i].len() > 0
                    && lines[i].last() == '\r' {
                    lines[i].drop_last()
                } else {
                    lines[i]
                }
        }),
{
    lemma_written_split(lines, rest);
    assert(lines.push(rest).drop_last() =~= lines);
    assert(lines.push(rest).last() == rest);
}

/// The control sequence for the clipboard is the terminal's opening for it, what is copied, and
/// the terminator.
pub proof fn law_clipboard(encoded: Seq<char>)
    ensures
        osc52_of(encoded) == seq!['\x1b', ']', '5', '2', ';', 'c', ';'] + encoded + seq![
            '\x1b',
            '\\',
        ],
{
    reveal_strlit("\x1b]52;c;");
    reveal_strlit("\x1b\\");
    assert("\x1b]52;c;"@ =~= seq!['\x1b', ']', '5', '2', ';', 'c', ';']);
    assert("\x1b\\"@ =~= seq!['\x1b', '\\']);
}

/// A copy is reported with the number of bytes that were copied; that there is nothing to copy
/// and that copying failed are told apart from it.
pub proof fn law_copy_told(bytes: nat, copied: bool)
    ensures
        bytes == 0 ==> copy_text(bytes, copied) == "Nothing to copy"@,
        bytes > 0 && !copied ==> copy_text(bytes, copied) == "Failed to copy to clipboard"@,
        bytes > 0 && copied ==> exists|number: Seq<char>|
            {
                &&& #[trigger] value_of(number) == bytes
                &&& copy_text(bytes, copied) == "Copied "@ + number + " bytes to clipboard"@
            },
{
    lemma_decimal_value(bytes);
    if bytes > 0 && copied {
        assert(value_of(decimal(bytes)) == bytes);
    }
}

} // verus!
