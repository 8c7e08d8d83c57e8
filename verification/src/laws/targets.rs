//! Laws on the targets that are offered.
use vstd::prelude::*;

use crate::laws::text::{law_suffixes_go, law_tight_stays, law_trimmed_part, part_at, tight};
use crate::targets::{help_target, help_targets, project_target, project_targets, xml_attr};
use crate::text::{
    contains_text, first_at, first_copies, lemma_find_from, lemma_first_at,
    lemma_first_copies, occurs_at, trimmed, without_suffixes,
};

verus! {

/// A name that no generator adds by itself and that is neither a path nor a file.
pub open spec fn users_target(name: Seq<char>) -> bool {
    &&& name != "clean"@
    &&& name != "help"@
    &&& name != "depend"@
    &&& name != "edit_cache"@
    &&& name != "rebuild_cache"@
    &&& name != "list_install_components"@
    &&& name != "package"@
    &&& name != "package_source"@
    &&& !name.contains('/')
    &&& !name.contains('\\')
    &&& !name.contains('.')
}

/// A line of the help that names a target: as Ninja writes it or as makefiles do, where the
/// default target has a note behind its name.
pub open spec fn names_target(line: Seq<char>, name: Seq<char>) -> bool {
    let l = trimmed(line);
    let note = " (the default if no target is provided)"@;
    ||| l == name + ": phony"@
    ||| l == name + note + ": phony"@
    ||| l == "... "@ + name && !": phony"@.is_suffix_of(l)
    ||| l == "... "@ + name + note
}

/// A text of one character stands in another where the other has that character.
proof fn lemma_one_char(s: Seq<char>, p: Seq<char>, c: char)
    requires
        p == seq![c],
    ensures
        contains_text(s, p) == s.contains(c),
{
    if contains_text(s, p) {
        let i = choose|i: int| occurs_at(s, p, i);
        assert(s.subrange(i, i + 1)[0] == c);
        assert(s[i] == c);
    }
    if s.contains(c) {
        let i = choose|i: int| 0 <= i < s.len() && s[i] == c;
        assert(s.subrange(i, i + 1) =~= p);
        assert(occurs_at(s, p, i));
    }
}

/// What is held against a name before it is offered.
proof fn lemma_offered(name: Seq<char>)
    ensures
        crate::targets::offered(name) == users_target(name),
{
    reveal_strlit("/");
    reveal_strlit("\\");
    reveal_strlit(".");
    assert("/"@ =~= seq!['/']);
    assert("\\"@ =~= seq!['\\']);
    assert("."@ =~= seq!['.']);
    lemma_one_char(name, "/"@, '/');
    lemma_one_char(name, "\\"@, '\\');
    lemma_one_char(name, "."@, '.');
    let b = crate::targets::builtin_targets();
    assert(b[0] == "clean"@ && b[1] == "help"@ && b[2] == "depend"@ && b[3] == "edit_cache"@ && b[4]
        == "rebuild_cache"@ && b[5] == "list_install_components"@ && b[6] == "package"@ && b[7]
        == "package_source"@);
    if b.contains(name) {
        let k = choose|k: int| 0 <= k < b.len() && b[k] == name;
        assert(k == 0 || k == 1 || k == 2 || k == 3 || k == 4 || k == 5 || k == 6 || k == 7);
    }
}

/// A line offers the target that it names.
proof fn lemma_line_offers(line: Seq<char>, name: Seq<char>)
    requires
        names_target(line, name),
        users_target(name),
        tight(name),
        !" (the default if no target is provided)"@.is_suffix_of(name),
    ensures
        help_target(line) == Some(name),
{
    reveal_strlit(" (the default if no target is provided)");
    reveal_strlit(": phony");
    reveal_strlit("... ");
    let l = trimmed(line);
    let note = " (the default if no target is provided)"@;
    let phony = ": phony"@;
    let dots = "... "@;
    let noted = name + note;
    lemma_offered(name);
    law_tight_stays(name);
    assert(tight(noted)) by {
        assert(noted[0] == name[0]);
        assert(noted.last() == note.last());
    }
    law_tight_stays(noted);
    law_suffixes_go(name, note);
    if l == name + phony {
        assert(l.subrange(l.len() - phony.len(), l.len() as int) =~= phony);
        assert(l.take(l.len() - phony.len()) =~= name);
    } else if l == noted + phony {
        assert(l.subrange(l.len() - phony.len(), l.len() as int) =~= phony);
        assert(l.take(l.len() - phony.len()) =~= noted);
    } else if l == dots + name + note {
        assert(l =~= dots + noted);
        assert(!phony.is_suffix_of(l)) by {
            if phony.is_suffix_of(l) {
                assert(l.subrange(l.len() - phony.len(), l.len() as int)[phony.len() - 1] == 'y');
                assert(l.last() == note.last());
            }
        }
        assert(l.subrange(0, dots.len() as int) =~= dots);
        assert(l.skip(dots.len() as int) =~= noted);
    } else {
        assert(l.subrange(0, dots.len() as int) =~= dots);
        assert(l.skip(dots.len() as int) =~= name);
    }
}

/// What a line offers is among what all lines offer.
proof fn lemma_line_counts(ls: Seq<Seq<char>>, i: int)
    requires
        0 <= i < ls.len(),
        help_target(ls[i]) is Some,
    ensures
        help_targets(ls).contains(help_target(ls[i])->0),
    decreases ls.len(),
{
    let init = ls.drop_last();
    let before = help_targets(init);
    let t = help_target(ls[i])->0;
    if i < init.len() {
        assert(init[i] == ls[i]);
        lemma_line_counts(init, i);
        let k = choose|k: int| 0 <= k < before.len() && before[k] == t;
        assert(help_targets(ls)[k] == t);
    } else {
        assert(help_targets(ls)[before.len() as int] == t);
    }
}

/// What all lines offer, some line offers.
proof fn lemma_counted_line(ls: Seq<Seq<char>>, t: Seq<char>) -> (i: int)
    requires
        help_targets(ls).contains(t),
    ensures
        0 <= i < ls.len(),
        help_target(ls[i]) == Some(t),
    decreases ls.len(),
{
    let init = ls.drop_last();
    let before = help_targets(init);
    let k = choose|k: int| 0 <= k < help_targets(ls).len() && help_targets(ls)[k] == t;
    if ls.len() > 0 && help_target(ls.last()) == Some(t) {
        ls.len() - 1
    } else {
        assert(before[k] == t);
        let i = lemma_counted_line(init, t);
        assert(init[i] == ls[i]);
        i
    }
}

/// The help misses nothing: a target of the user's that stands on a line of the help is offered.
pub proof fn law_help_misses_nothing(ls: Seq<Seq<char>>, i: int, name: Seq<char>)
    requires
        0 <= i < ls.len(),
        names_target(ls[i], name),
        users_target(name),
        tight(name),
        !" (the default if no target is provided)"@.is_suffix_of(name),
    ensures
        first_copies(help_targets(ls)).contains(name),
{
    lemma_line_offers(ls[i], name);
    lemma_line_counts(ls, i);
    lemma_first_copies(help_targets(ls));
}

/// The help adds nothing: what it offers is a target of the user's, stands on some line of the
/// help, and is offered once.
pub proof fn law_help_adds_nothing(ls: Seq<Seq<char>>, name: Seq<char>)
    requires
        first_copies(help_targets(ls)).contains(name),
    ensures
        users_target(name),
        exists|i: int| 0 <= i < ls.len() && contains_text(#[trigger] ls[i], name),
        first_copies(help_targets(ls)).no_duplicates(),
{
    lemma_first_copies(help_targets(ls));
    let i = lemma_counted_line(ls, name);
    lemma_offered(name);
    let line = ls[i];
    let l = trimmed(line);
    law_trimmed_part(line);
    let n = crate::targets::help_name(line)->0;
    let inner = if ": phony"@.is_suffix_of(l) {
        l.take(l.len() - ": phony"@.len())
    } else {
        l.skip("... "@.len() as int)
    };
    assert(n == trimmed(inner));
    law_trimmed_part(inner);
    let a = choose|a: int| #[trigger] part_at(line, l, a);
    let b = choose|b: int| #[trigger] part_at(inner, n, b);
    let c: int = if ": phony"@.is_suffix_of(l) {
        0
    } else {
        "... "@.len() as int
    };
    assert(inner =~= l.subrange(c, c + inner.len()));
    lemma_suffixes_prefix(n, " (the default if no target is provided)"@);
    assert(line.subrange(a + b + c, a + b + c + name.len()) =~= name) by {
        assert forall|k: int| 0 <= k < name.len() implies line[a + b + c + k] == name[k] by {
            assert(name[k] == n[k]);
            assert(n[k] == inner[b + k]);
            assert(inner[b + k] == l[c + b + k]);
            assert(l[c + b + k] == line[a + c + b + k]);
        }
    }
    assert(occurs_at(line, name, a + b + c));
    assert(contains_text(ls[i], name));
}

/// Taking copies at the end leaves a start.
proof fn lemma_suffixes_prefix(s: Seq<char>, p: Seq<char>)
    ensures
        without_suffixes(s, p).len() <= s.len(),
        forall|k: int|
            0 <= k < without_suffixes(s, p).len() ==> #[trigger] without_suffixes(s, p)[k] == s[k],
    decreases s.len(),
{
    if p.len() > 0 && p.is_suffix_of(s) {
        lemma_suffixes_prefix(s.take(s.len() - p.len()), p);
    }
}

/// The value of an attribute is what stands between the quotes behind its first mention, and
/// there is none where the attribute is not mentioned.
pub proof fn law_attribute(
    before: Seq<char>,
    name: Seq<char>,
    value: Seq<char>,
    after: Seq<char>,
)
    requires
        !value.contains('"'),
        forall|k: int|
            0 <= k < before.len() ==> !#[trigger] occurs_at(
                before + name + "=\""@ + value + "\""@ + after,
                name + "=\""@,
                k,
            ),
    ensures
        xml_attr(before + name + "=\""@ + value + "\""@ + after, name) == Some(value),
{
    reveal_strlit("=\"");
    reveal_strlit("\"");
    let quote = "\""@;
    assert(quote =~= seq!['"']);
    let pattern = name + "=\""@;
    let s = before + name + "=\""@ + value + quote + after;
    assert(s.subrange(before.len() as int, (before.len() + pattern.len()) as int) =~= pattern);
    assert(occurs_at(s, pattern, before.len() as int));
    lemma_first_is(s, pattern, before.len() as int);
    let rest = s.skip((before.len() + pattern.len()) as int);
    assert(rest =~= value + quote + after);
    assert(rest.subrange(value.len() as int, (value.len() + 1) as int) =~= quote);
    assert(occurs_at(rest, quote, value.len() as int));
    assert forall|k: int| 0 <= k < value.len() implies !#[trigger] occurs_at(rest, quote, k) by {
        if occurs_at(rest, quote, k) {
            assert(rest.subrange(k, k + 1)[0] == '"');
            assert(value[k] == '"');
        }
    }
    lemma_first_is(rest, quote, value.len() as int);
    assert(rest.take(value.len() as int) =~= value);
}

/// The leftmost place is the one that the search gives.
pub proof fn lemma_first_is(s: Seq<char>, p: Seq<char>, at: int)
    requires
        occurs_at(s, p, at),
        forall|k: int| 0 <= k < at ==> !#[trigger] occurs_at(s, p, k),
    ensures
        first_at(s, p) == Some(at),
{
    lemma_first_at(s, p);
    assert(contains_text(s, p));
    let k = first_at(s, p)->0;
    lemma_find_from(s, p, 0);
    if at < k {
        assert(!occurs_at(s, p, at));
    }
    if k < at {
        assert(!occurs_at(s, p, k));
    }
}

/// The target of a project: its own name, but that of the project that builds everything is
/// `all` and that of the one that installs is `install`.
pub open spec fn target_of_name(name: Seq<char>) -> Seq<char> {
    if name == "ALL_BUILD"@ {
        "all"@
    } else if name == "INSTALL"@ {
        "install"@
    } else {
        name
    }
}

/// A solution misses nothing: every project of it but the one that checks for changes is
/// offered, under its own name or under that which everyone knows it by.
pub proof fn law_solution_misses_nothing(
    files: Seq<Option<Seq<char>>>,
    i: int,
    name: Seq<char>,
)
    requires
        0 <= i < files.len(),
        files[i] == Some(name + ".vcxproj"@),
        name.len() > 0,
        name != "ZERO_CHECK"@,
        !".vcxproj"@.is_suffix_of(name),
    ensures
        first_copies(project_targets(files)).contains(target_of_name(name)),
{
    reveal_strlit(".vcxproj");
    law_suffixes_go(name, ".vcxproj"@);
    assert(project_target(name + ".vcxproj"@) == Some(target_of_name(name)));
    lemma_project_counts(files, i, name + ".vcxproj"@);
    lemma_first_copies(project_targets(files));
}

proof fn lemma_project_counts(files: Seq<Option<Seq<char>>>, i: int, file: Seq<char>)
    requires
        0 <= i < files.len(),
        files[i] == Some(file),
        project_target(file) is Some,
    ensures
        project_targets(files).contains(project_target(file)->0),
    decreases files.len(),
{
    let init = files.drop_last();
    let before = project_targets(init);
    let t = project_target(file)->0;
    if i < init.len() {
        assert(init[i] == files[i]);
        lemma_project_counts(init, i, file);
        let k = choose|k: int| 0 <= k < before.len() && before[k] == t;
        assert(project_targets(files)[k] == t);
    } else {
        assert(project_targets(files)[before.len() as int] == t);
    }
}

/// A solution adds nothing: what it offers is the target of one of its projects, is not empty,
/// and is offered once.
pub proof fn law_solution_adds_nothing(files: Seq<Option<Seq<char>>>, target: Seq<char>)
    requires
        first_copies(project_targets(files)).contains(target),
    ensures
        target.len() > 0,
        target != "ZERO_CHECK"@,
        target != "ALL_BUILD"@,
        target != "INSTALL"@,
        exists|i: int|
            0 <= i < files.len() && #[trigger] files[i] is Some && target == target_of_name(
                without_suffixes(files[i]->0, ".vcxproj"@),
            ),
        first_copies(project_targets(files)).no_duplicates(),
{
    reveal_strlit("all");
    reveal_strlit("install");
    reveal_strlit("ALL_BUILD");
    reveal_strlit("INSTALL");
    reveal_strlit("ZERO_CHECK");
    assert("all"@.len() == 3 && "install"@.len() == 7 && "ALL_BUILD"@.len() == 9);
    assert("INSTALL"@.len() == 7 && "ZERO_CHECK"@.len() == 10);
    assert("INSTALL"@[0] == 'I' && "install"@[0] == 'i');
    lemma_first_copies(project_targets(files));
    let i = lemma_counted_project(files, target);
    assert(files[i] is Some);
}

proof fn lemma_counted_project(files: Seq<Option<Seq<char>>>, t: Seq<char>) -> (i: int)
    requires
        project_targets(files).contains(t),
    ensures
        0 <= i < files.len(),
        files[i] is Some,
        project_target(files[i]->0) == Some(t),
    decreases files.len(),
{
    let init = files.drop_last();
    let before = project_targets(init);
    let k = choose|k: int| 0 <= k < project_targets(files).len() && project_targets(files)[k] == t;
    if files.len() > 0 && files.last() is Some && project_target(files.last()->0) == Some(t) {
        files.len() - 1
    } else {
        assert(before[k] == t);
        let i = lemma_counted_project(init, t);
        assert(init[i] == files[i]);
        i
    }
}

} // verus!
