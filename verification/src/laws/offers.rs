//! Laws on solutions, the order in which targets are offered, and what is told of toolchains.
use vstd::prelude::*;

use crate::cache::{chosen_outcome, ChoiceView};
use crate::commands::target_label_of;
use crate::laws::targets::law_attribute;
use crate::laws::text::{blank, law_suffixes_go, law_trimmed};
use crate::platform::{ascii_lower, decoded, lowered};
use crate::probe::mingw_root_texts;
use crate::scan::{stage_text, stages_of, ScanStage};
use crate::targets::{
    differs_from, offer_order, project_path, project_paths, slnx_name, with_first,
};
use crate::text::{
    is_first, lemma_split_appended, lemma_split_joined, lemma_split_nonempty, occurs_at, split_on,
    trimmed, white,
};
use crate::toolchain::{
    label_of, stem_of, stem_outcome, stems_outcome, Toolchain, ToolchainView,
};
use crate::vendor::command_text_of;

verus! {

// ---------------------------------------------------------------------------
// Solutions
// ---------------------------------------------------------------------------

/// A line of a solution that opens a project adds the path behind its first `Path`, however the
/// line is indented and whatever else it says.
pub proof fn law_project_line(
    indent: Seq<char>,
    before: Seq<char>,
    path: Seq<char>,
    after: Seq<char>,
    end: Seq<char>,
)
    requires
        blank(indent),
        blank(end),
        after.len() == 0 || !white(after.last()),
        !path.contains('"'),
        forall|k: int|
            0 <= k < "<Project"@.len() + before.len() ==> !#[trigger] occurs_at(
                "<Project"@ + before + "Path"@ + "=\""@ + path + "\""@ + after,
                "Path"@ + "=\""@,
                k,
            ),
    ensures
        project_path(
            indent + ("<Project"@ + before + "Path"@ + "=\""@ + path + "\""@ + after) + end,
        ) == Some(path),
{
    reveal_strlit("<Project");
    reveal_strlit("\"");
    let l = "<Project"@ + before + "Path"@ + "=\""@ + path + "\""@ + after;
    assert(l[0] == '<');
    assert(l.last() == if after.len() == 0 {
        '"'
    } else {
        after.last()
    });
    law_trimmed(indent, l, end);
    assert(l.subrange(0, "<Project"@.len() as int) =~= "<Project"@);
    law_attribute("<Project"@ + before, "Path"@, path, after);
}

/// A line that opens no project adds none.
pub proof fn law_other_line(line: Seq<char>)
    requires
        !"<Project"@.is_prefix_of(trimmed(line)),
    ensures
        project_path(line) is None,
{
}

/// The paths of a solution are those that its lines add, line by line.
pub proof fn law_project_paths(ls: Seq<Seq<char>>, line: Seq<char>)
    ensures
        project_paths(Seq::empty()) == Seq::<Seq<char>>::empty(),
        project_path(line) matches Some(p) ==> project_paths(ls.push(line)) == project_paths(
            ls,
        ).push(p),
        project_path(line) is None ==> project_paths(ls.push(line)) == project_paths(ls),
{
    assert(ls.push(line).drop_last() =~= ls);
}

/// A file is a solution exactly where something stands before its last dot and `slnx`, in any
/// case, behind it.
pub proof fn law_solution_file(stem: Seq<char>, extension: Seq<char>)
    requires
        !extension.contains('.'),
    ensures
        slnx_name(stem + "."@ + extension) <==> {
            &&& stem.len() > 0
            &&& extension.len() == 4
            &&& ascii_lower(extension[0]) == 's'
            &&& ascii_lower(extension[1]) == 'l'
            &&& ascii_lower(extension[2]) == 'n'
            &&& ascii_lower(extension[3]) == 'x'
        },
        !slnx_name(extension),
{
    reveal_strlit(".");
    reveal_strlit("slnx");
    let head = stem + "."@;
    assert(head.drop_last() =~= stem);
    assert(head.last() == '.');
    let p = split_on(stem, '.');
    lemma_split_nonempty(stem, '.');
    lemma_split_joined(stem, '.');
    assert(split_on(head, '.') == p.push(Seq::<char>::empty()));
    lemma_split_appended(head, extension, '.');
    assert(Seq::<char>::empty() + extension =~= extension);
    let q = split_on(head + extension, '.');
    assert(q =~= p.push(extension));
    if stem.len() == 0 {
        assert(p.len() == 1);
    } else if p.len() == 1 {
        assert(crate::text::joined(p, seq!['.']) == p[0]);
    }
    let low = extension.map_values(|c: char| ascii_lower(c));
    if extension.len() == 4 && ascii_lower(extension[0]) == 's' && ascii_lower(extension[1]) == 'l'
        && ascii_lower(extension[2]) == 'n' && ascii_lower(extension[3]) == 'x' {
        assert(low =~= "slnx"@);
    }
    if low == "slnx"@ {
        assert(low.len() == 4);
        assert(low[0] == 's' && low[1] == 'l' && low[2] == 'n' && low[3] == 'x');
    }
    let none = Seq::<char>::empty();
    lemma_split_appended(none, extension, '.');
    assert(none + extension =~= extension);
    assert(split_on(none, '.').len() == 1);
}

// ---------------------------------------------------------------------------
// Order
// ---------------------------------------------------------------------------

/// Whether a target is neither of the two that are offered first.
pub open spec fn usual_target() -> spec_fn(Seq<char>) -> bool {
    |x: Seq<char>| x != "all"@ && x != "install"@
}

/// What is picked twice.
proof fn lemma_filter_twice(l: Seq<Seq<char>>, first: Seq<char>)
    requires
        !usual_target()(first),
    ensures
        l.filter(differs_from(first)).filter(usual_target()) == l.filter(usual_target()),
    decreases l.len(),
{
    reveal(Seq::filter);
    if l.len() > 0 {
        let init = l.drop_last();
        lemma_filter_twice(init, first);
        let some = init.filter(differs_from(first));
        if differs_from(first)(l.last()) {
            assert(some.push(l.last()).drop_last() =~= some);
        }
    }
}

/// Moving one of the two to the front leaves the others as they were.
proof fn lemma_moved(l: Seq<Seq<char>>, first: Seq<char>)
    requires
        !usual_target()(first),
    ensures
        with_first(l, first).filter(usual_target()) == l.filter(usual_target()),
{
    if l.contains(first) {
        let rest = l.filter(differs_from(first));
        lemma_filter_twice(l, first);
        rest.lemma_filter_prepend(first, usual_target());
    }
}

/// The other targets are offered as often and in the order in which they came.
pub proof fn law_offer_keeps_order(l: Seq<Seq<char>>)
    ensures
        offer_order(l).filter(|x: Seq<char>| x != "all"@ && x != "install"@) == l.filter(
            |x: Seq<char>| x != "all"@ && x != "install"@,
        ),
{
    lemma_moved(l, "install"@);
    lemma_moved(with_first(l, "install"@), "all"@);
}

// ---------------------------------------------------------------------------
// Toolchains
// ---------------------------------------------------------------------------

/// A toolchain is told by its name, version and path, and between them its triple or, where that
/// is not known, its platform.
pub proof fn law_label(tc: ToolchainView)
    ensures
        tc.triple matches Some(t) ==> label_of(tc) == tc.name + " ("@ + tc.version + ")"@ + (" ["@
            + t + "]"@) + "  "@ + tc.path,
        tc.triple is None ==> (tc.arch matches Some(a) ==> label_of(tc) == tc.name + " ("@
            + tc.version + ")"@ + (" ["@ + a + "]"@) + "  "@ + tc.path),
        tc.triple is None && tc.arch is None ==> label_of(tc) == tc.name + " ("@ + tc.version
            + ")  "@ + tc.path,
{
    if tc.triple is None && tc.arch is None {
        reveal_strlit(")");
        reveal_strlit("  ");
        reveal_strlit(")  ");
        assert(label_of(tc) =~= tc.name + " ("@ + tc.version + ")  "@ + tc.path);
    }
}

/// A compiler is known by its file name in lower case, without the extension of programs.
pub proof fn law_stem(file: Seq<char>, stem: Seq<char>)
    requires
        !".exe"@.is_suffix_of(stem),
    ensures
        lowered(file) == stem ==> stem_of(file) == stem,
        lowered(file) == stem + ".exe"@ ==> stem_of(file) == stem,
{
    reveal_strlit(".exe");
    law_suffixes_go(stem, ".exe"@);
}

/// The scan goes through MinGW, LLVM, Visual Studio and the search path on Windows, and through
/// the search path alone elsewhere.
pub proof fn law_stages()
    ensures
        stages_of(true) == seq![
            ScanStage::Mingw,
            ScanStage::Llvm,
            ScanStage::Msvc,
            ScanStage::Path,
        ],
        stages_of(false) == seq![ScanStage::Path],
        forall|s: ScanStage| "Scanning toolchains: "@.is_prefix_of(#[trigger] stage_text(s)),
        forall|s: ScanStage, t: ScanStage| #[trigger]
            stage_text(s) == #[trigger] stage_text(t) ==> s == t,
{
    reveal_strlit("Scanning toolchains: ");
    reveal_strlit("Scanning toolchains: MinGW GCC...");
    reveal_strlit("Scanning toolchains: LLVM/Clang...");
    reveal_strlit("Scanning toolchains: MSVC...");
    reveal_strlit("Scanning toolchains: PATH fallback...");
    assert forall|s: ScanStage| "Scanning toolchains: "@.is_prefix_of(#[trigger] stage_text(s)) by {
        let n = "Scanning toolchains: "@.len() as int;
        assert(stage_text(s).subrange(0, n) =~= "Scanning toolchains: "@);
    }
    assert forall|s: ScanStage, t: ScanStage| #[trigger] stage_text(s) == #[trigger] stage_text(
        t,
    ) implies s == t by {
        assert(stage_text(s).len() == stage_text(t).len());
    }
}

/// MinGW is looked for at five places, MSYS2's environments among them.
pub proof fn law_mingw_roots(root: Seq<char>)
    ensures
        mingw_root_texts().contains(root) <==> {
            ||| root == "D:\\mingw64"@
            ||| root == "C:\\mingw64"@
            ||| root == "C:\\msys64\\mingw64"@
            ||| root == "C:\\msys64\\ucrt64"@
            ||| root == "C:\\msys64\\clang64"@
        },
{
    let l = mingw_root_texts();
    assert(l[0] == "D:\\mingw64"@ && l[1] == "C:\\mingw64"@ && l[2] == "C:\\msys64\\mingw64"@);
    assert(l[3] == "C:\\msys64\\ucrt64"@ && l[4] == "C:\\msys64\\clang64"@);
}

/// What a command says is what it wrote to both its streams, on lines of their own.
pub proof fn law_command_text(stdout: Seq<u8>, stderr: Seq<u8>)
    ensures
        command_text_of(stdout, stderr) == decoded(stdout) + seq!['\n'] + decoded(stderr),
{
    reveal_strlit("\n");
    assert("\n"@ =~= seq!['\n']);
}

/// The toolchain that a cache of Visual Studio leads to is the first with the identifier and the
/// platform of the cache, or with the identifier where the cache names no platform; there is none
/// only where no toolchain fits.
pub proof fn law_chosen(
    list: Seq<Toolchain>,
    id: Seq<char>,
    arch: Seq<char>,
    r: Option<usize>,
    k: int,
)
    requires
        chosen_outcome(list, ChoiceView::ByIdArch { id, arch }, r),
        0 <= k < list.len(),
    ensures
        r matches Some(i) ==> {
            &&& i < list.len()
            &&& list[i as int]@.id == id
            &&& arch.len() > 0 ==> list[i as int]@.arch == Some(arch)
        },
        list[k]@.id == id && (arch.len() == 0 || list[k]@.arch == Some(arch)) ==> (r matches Some(i)
            && i <= k),
{
    let p = |k: int| list[k]@.id == id && (arch.len() == 0 || list[k]@.arch == Some(arch));
    assert(p(k) == (list[k]@.id == id && (arch.len() == 0 || list[k]@.arch == Some(arch))));
}

/// The toolchain that any other cache leads to is the first whose compiler is known by the name
/// that the cache gives: it has that name, those before it have another, and all have another
/// where there is none.
pub proof fn law_chosen_by_name(
    list: Seq<Toolchain>,
    stem: Seq<char>,
    r: Option<usize>,
    k: int,
)
    requires
        chosen_outcome(list, ChoiceView::ByStem { stem }, r),
        0 <= k < list.len(),
    ensures
        r matches Some(i) ==> i < list.len() && stem_outcome(list[i as int].path@, Some(stem)),
        (r matches Some(i) ==> k < i) ==> exists|other: Option<Seq<char>>|
            other != Some(stem) && #[trigger] stem_outcome(list[k].path@, other),
{
    let stems = choose|stems: Seq<Option<Seq<char>>>| #[trigger]
        stems_outcome(list, stems) && is_first(r, list.len(), |k: int| stems[k] == Some(stem));
    let p = |k: int| stems[k] == Some(stem);
    assert(p(k) == (stems[k] == Some(stem)));
    assert(stem_outcome(list[k].path@, stems[k]));
    if r is Some {
        let i = r->0 as int;
        assert(stem_outcome(list[i].path@, stems[i]));
    }
}

/// A cache that tells nothing leads to none.
pub proof fn law_unknown_choice(list: Seq<Toolchain>, r: Option<usize>)
    requires
        chosen_outcome(list, ChoiceView::Unknown, r),
    ensures
        r is None,
{
}

/// A target is told by its name, and where none was named, everything is built.
pub proof fn law_target_told(target: Seq<char>)
    ensures
        target.len() > 0 ==> target_label_of(target) == target,
        target_label_of(Seq::empty()) == "all"@,
{
}

} // verus!
