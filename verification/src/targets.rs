//! Build targets, from what a generator lists.
use vstd::prelude::*;
use vstd::slice::slice_subrange;

use crate::cache::{is_studio_cache, studio_cache};
use crate::platform::{ascii_lower, file_name_outcome, path_file_name, string_of};
use crate::string_map::StringMap;
use crate::text::{
    after_prefix, before_suffix, char_seqs, contains, contains_text, equal, find, first_at,
    first_copies, is_first, lemma_first_copies, lines, lines_of, opt_text, opt_texts,
    position, same, split, split_on, starts_with, strip_prefix, strip_suffix, texts, to_chars, trim,
    trim_end_text, trimmed, without_suffixes,
};

verus! {

// ---------------------------------------------------------------------------
// The help target
// ---------------------------------------------------------------------------

/// The targets that every generator adds and that are not offered.
pub open spec fn builtin_targets() -> Seq<Seq<char>> {
    seq![
        "clean"@,
        "help"@,
        "depend"@,
        "edit_cache"@,
        "rebuild_cache"@,
        "list_install_components"@,
        "package"@,
        "package_source"@,
    ]
}

/// Whether a name is that of a target to offer: no builtin, no path, no file.
pub open spec fn offered(name: Seq<char>) -> bool {
    &&& !builtin_targets().contains(name)
    &&& !contains_text(name, "/"@)
    &&& !contains_text(name, "\\"@)
    &&& !contains_text(name, "."@)
}

/// The name on a line of the help: Ninja writes `name: phony`, makefiles write `... name`.
pub open spec fn help_name(line: Seq<char>) -> Option<Seq<char>> {
    let l = trimmed(line);
    match before_suffix(l, ": phony"@) {
        Some(name) => Some(trimmed(name)),
        None => match after_prefix(l, "... "@) {
            Some(name) => Some(trimmed(name)),
            None => None,
        },
    }
}

/// The target that a line of the help offers.
pub open spec fn help_target(line: Seq<char>) -> Option<Seq<char>> {
    match help_name(line) {
        Some(n) => {
            let name = without_suffixes(n, " (the default if no target is provided)"@);
            if offered(name) {
                Some(name)
            } else {
                None
            }
        },
        None => None,
    }
}

/// The targets that lines of the help offer, in their order and with copies.
pub open spec fn help_targets(ls: Seq<Seq<char>>) -> Seq<Seq<char>>
    decreases ls.len(),
{
    if ls.len() == 0 {
        Seq::<Seq<char>>::empty()
    } else {
        let before = help_targets(ls.drop_last());
        match help_target(ls.last()) {
            Some(t) => before.push(t),
            None => before,
        }
    }
}

/// Whether a name is one of a builtin target.
fn is_builtin(name: &[char]) -> (r: bool)
    ensures
        r == builtin_targets().contains(name@),
{
    let name = string_of(name);
    let n = name.as_str();
    let ghost b = builtin_targets();
    proof {
        assert(b[0] == "clean"@ && b[1] == "help"@ && b[2] == "depend"@ && b[3] == "edit_cache"@
            && b[4] == "rebuild_cache"@ && b[5] == "list_install_components"@ && b[6] == "package"@
            && b[7] == "package_source"@);
    }
    equal(n, "clean") || equal(n, "help") || equal(n, "depend") || equal(n, "edit_cache") || equal(
        n,
        "rebuild_cache",
    ) || equal(n, "list_install_components") || equal(n, "package") || equal(n, "package_source")
}

/// The target that a line of the help offers.
fn parse_help_line(line: &[char]) -> (r: Option<String>)
    ensures
        opt_text(r) == help_target(line@),
{
    proof {
        reveal_strlit(" (the default if no target is provided)");
    }
    let l = trim(line);
    let name = match strip_suffix(l, ": phony") {
        Some(name) => trim(name),
        None => match strip_prefix(l, "... ") {
            Some(name) => trim(name),
            None => {
                return None;
            },
        },
    };
    let name = trim_end_text(name, " (the default if no target is provided)");
    if is_builtin(name) || contains(name, "/") || contains(name, "\\") || contains(name, ".") {
        None
    } else {
        Some(string_of(name))
    }
}

/// Appends `name` unless it is there.
fn push_new(list: &mut Vec<String>, name: String, Ghost(l): Ghost<Seq<Seq<char>>>)
    requires
        texts(old(list)@) == first_copies(l),
    ensures
        texts(final(list)@) == first_copies(l.push(name@)),
{
    let ghost before = list@;
    proof {
        assert(l.push(name@).drop_last() == l);
    }
    if position(list, name.as_str()).is_none() {
        list.push(name);
        proof {
            assert(texts(list@) =~= texts(before).push(name@));
        }
    }
}

/// The targets that the output of the help target offers, each once.
pub fn parse_cmake_target_help(output: &str) -> (r: Vec<String>)
    ensures
        texts(r@) == first_copies(help_targets(lines_of(output@))),
{
    let ls = lines(to_chars(output).as_slice());
    let ghost all = char_seqs(ls@);
    let mut targets: Vec<String> = Vec::new();
    let mut i: usize = 0;
    proof {
        assert(help_targets(all.take(0)) =~= Seq::<Seq<char>>::empty());
        assert(texts(targets@) =~= Seq::<Seq<char>>::empty());
    }
    while i < ls.len()
        invariant
            i <= ls@.len(),
            all == char_seqs(ls@),
            texts(targets@) == first_copies(help_targets(all.take(i as int))),
        decreases ls@.len() - i,
    {
        let ghost done = help_targets(all.take(i as int));
        proof {
            assert(all.take(i + 1).drop_last() == all.take(i as int));
            assert(all.take(i + 1).last() == ls@[i as int]@);
        }
        match parse_help_line(ls[i].as_slice()) {
            Some(name) => {
                push_new(&mut targets, name, Ghost(done));
            },
            None => {},
        }
        i = i + 1;
    }
    proof {
        assert(all.take(i as int) == all);
    }
    targets
}

/// The help offers every target once, and none that is builtin, a path or a file.
pub proof fn lemma_help_targets_offered(ls: Seq<Seq<char>>)
    ensures
        first_copies(help_targets(ls)).no_duplicates(),
        forall|t: Seq<char>| #[trigger] first_copies(help_targets(ls)).contains(t) ==> offered(t),
{
    lemma_first_copies(help_targets(ls));
    lemma_help_offered(ls);
    assert forall|t: Seq<char>| #[trigger]
        first_copies(help_targets(ls)).contains(t) implies offered(t) by {
        let i = choose|i: int| 0 <= i < help_targets(ls).len() && help_targets(ls)[i] == t;
        assert(offered(help_targets(ls)[i]));
    }
}

proof fn lemma_help_offered(ls: Seq<Seq<char>>)
    ensures
        forall|i: int| 0 <= i < help_targets(ls).len() ==> offered(#[trigger] help_targets(ls)[i]),
    decreases ls.len(),
{
    if ls.len() > 0 {
        lemma_help_offered(ls.drop_last());
        let before = help_targets(ls.drop_last());
        assert forall|i: int| 0 <= i < help_targets(ls).len() implies offered(
            #[trigger] help_targets(ls)[i],
        ) by {
            if i < before.len() {
                assert(help_targets(ls)[i] == before[i]);
            }
        }
    }
}

// ---------------------------------------------------------------------------
// Solutions of Visual Studio
// ---------------------------------------------------------------------------

/// The value of the attribute `name` in `s`: what stands between the quotes after the first
/// `name="`.
pub open spec fn xml_attr(s: Seq<char>, name: Seq<char>) -> Option<Seq<char>> {
    let pattern = name + "=\""@;
    match first_at(s, pattern) {
        Some(i) => {
            let rest = s.skip(i + pattern.len());
            match first_at(rest, "\""@) {
                Some(end) => Some(rest.take(end)),
                None => None,
            }
        },
        None => None,
    }
}

/// The value of the attribute `name` in `s`.
pub fn extract_xml_attr(s: &[char], name: &str) -> (r: Option<String>)
    ensures
        opt_text(r) == xml_attr(s@, name@),
{
    let pattern = name.to_owned().concat("=\"");
    match find(s, pattern.as_str()) {
        Some(i) => {
            let n: usize = s.len();
            let start: usize = i + to_chars(pattern.as_str()).len();
            let rest = slice_subrange(s, start, n);
            proof {
                assert(rest@ == s@.skip(start as int));
            }
            match find(rest, "\"") {
                Some(end) => {
                    proof {
                        assert(rest@.take(end as int) == rest@.subrange(0, end as int));
                    }
                    Some(string_of(slice_subrange(rest, 0, end)))
                },
                None => None,
            }
        },
        None => None,
    }
}

/// The path of the project that a line of a solution adds.
pub open spec fn project_path(line: Seq<char>) -> Option<Seq<char>> {
    let l = trimmed(line);
    if "<Project"@.is_prefix_of(l) {
        xml_attr(l, "Path"@)
    } else {
        None
    }
}

/// The paths of the projects that lines of a solution add.
pub open spec fn project_paths(ls: Seq<Seq<char>>) -> Seq<Seq<char>>
    decreases ls.len(),
{
    if ls.len() == 0 {
        Seq::<Seq<char>>::empty()
    } else {
        let before = project_paths(ls.drop_last());
        match project_path(ls.last()) {
            Some(p) => before.push(p),
            None => before,
        }
    }
}

/// The target of the project with this file name. The project that only checks for changes
/// is none; those that build and install everything have their usual names.
pub open spec fn project_target(file: Seq<char>) -> Option<Seq<char>> {
    let name = without_suffixes(file, ".vcxproj"@);
    if name.len() == 0 || name == "ZERO_CHECK"@ {
        None
    } else if name == "ALL_BUILD"@ {
        Some("all"@)
    } else if name == "INSTALL"@ {
        Some("install"@)
    } else {
        Some(name)
    }
}

/// The targets of the projects with these file names, where they have one.
pub open spec fn project_targets(files: Seq<Option<Seq<char>>>) -> Seq<Seq<char>>
    decreases files.len(),
{
    if files.len() == 0 {
        Seq::<Seq<char>>::empty()
    } else {
        let before = project_targets(files.drop_last());
        match files.last() {
            Some(f) => match project_target(f) {
                Some(t) => before.push(t),
                None => before,
            },
            None => before,
        }
    }
}

/// What is known of the file names `files` of `paths`.
pub open spec fn file_names_outcome(
    paths: Seq<Seq<char>>,
    files: Seq<Option<Seq<char>>>,
) -> bool {
    &&& files.len() == paths.len()
    &&& forall|i: int| 0 <= i < paths.len() ==> file_name_outcome(paths[i], #[trigger] files[i])
}

/// The paths of the projects of a solution.
pub fn slnx_project_paths(content: &str) -> (r: Vec<String>)
    ensures
        texts(r@) == project_paths(lines_of(content@)),
{
    let ls = lines(to_chars(content).as_slice());
    let ghost all = char_seqs(ls@);
    let mut paths: Vec<String> = Vec::new();
    let mut i: usize = 0;
    proof {
        assert(project_paths(all.take(0)) =~= Seq::<Seq<char>>::empty());
        assert(texts(paths@) =~= Seq::<Seq<char>>::empty());
    }
    while i < ls.len()
        invariant
            i <= ls@.len(),
            all == char_seqs(ls@),
            texts(paths@) == project_paths(all.take(i as int)),
        decreases ls@.len() - i,
    {
        let ghost before = paths@;
        proof {
            assert(all.take(i + 1).drop_last() == all.take(i as int));
            assert(all.take(i + 1).last() == ls@[i as int]@);
        }
        let l = trim(ls[i].as_slice());
        if starts_with(l, "<Project") {
            match extract_xml_attr(l, "Path") {
                Some(p) => {
                    paths.push(p);
                    proof {
                        assert(texts(paths@) =~= texts(before).push(p@));
                    }
                },
                None => {},
            }
        }
        i = i + 1;
    }
    proof {
        assert(all.take(i as int) == all);
    }
    paths
}

/// The file names of `paths`.
pub fn file_names(paths: &Vec<String>) -> (r: Vec<Option<String>>)
    ensures
        file_names_outcome(texts(paths@), opt_texts(r@)),
{
    let mut out: Vec<Option<String>> = Vec::new();
    let mut i: usize = 0;
    while i < paths.len()
        invariant
            i <= paths@.len(),
            out@.len() == i,
            forall|k: int|
                0 <= k < i ==> file_name_outcome(paths@[k]@, #[trigger] opt_texts(out@)[k]),
        decreases paths@.len() - i,
    {
        let ghost before = out@;
        let f = path_file_name(paths[i].as_str());
        out.push(f);
        proof {
            assert forall|k: int| 0 <= k < i + 1 implies file_name_outcome(
                paths@[k]@,
                #[trigger] opt_texts(out@)[k],
            ) by {
                if k < i {
                    assert(opt_texts(out@)[k] == opt_texts(before)[k]);
                }
            }
        }
        i = i + 1;
    }
    out
}

/// The target of the project with this file name.
fn target_of_project(file: &str) -> (r: Option<String>)
    ensures
        opt_text(r) == project_target(file@),
{
    proof {
        reveal_strlit(".vcxproj");
    }
    let name = string_of(trim_end_text(to_chars(file).as_slice(), ".vcxproj"));
    let n = name.as_str();
    if n.is_empty() || equal(n, "ZERO_CHECK") {
        None
    } else if equal(n, "ALL_BUILD") {
        Some("all".to_owned())
    } else if equal(n, "INSTALL") {
        Some("install".to_owned())
    } else {
        Some(name)
    }
}

/// The targets of the projects with these file names, each once.
pub fn targets_of_projects(files: &Vec<Option<String>>) -> (r: Vec<String>)
    ensures
        texts(r@) == first_copies(project_targets(opt_texts(files@))),
{
    let ghost all = opt_texts(files@);
    let mut targets: Vec<String> = Vec::new();
    let mut i: usize = 0;
    proof {
        assert(project_targets(all.take(0)) =~= Seq::<Seq<char>>::empty());
        assert(texts(targets@) =~= Seq::<Seq<char>>::empty());
    }
    while i < files.len()
        invariant
            i <= files@.len(),
            all == opt_texts(files@),
            texts(targets@) == first_copies(project_targets(all.take(i as int))),
        decreases files@.len() - i,
    {
        let ghost done = project_targets(all.take(i as int));
        proof {
            assert(all.take(i + 1).drop_last() == all.take(i as int));
            assert(all.take(i + 1).last() == opt_text(files@[i as int]));
        }
        match &files[i] {
            Some(f) => match target_of_project(f.as_str()) {
                Some(t) => {
                    push_new(&mut targets, t, Ghost(done));
                },
                None => {},
            },
            None => {},
        }
        i = i + 1;
    }
    proof {
        assert(all.take(i as int) == all);
    }
    targets
}

/// The targets of the projects of a solution with this content, each once. What the file
/// name of a path is, the platform says.
pub fn scan_targets_from_slnx(content: &str) -> (r: Vec<String>)
    ensures
        exists|files: Seq<Option<Seq<char>>>| #[trigger]
            file_names_outcome(project_paths(lines_of(content@)), files) && texts(r@)
                == first_copies(project_targets(files)),
{
    let paths = slnx_project_paths(content);
    let files = file_names(&paths);
    let r = targets_of_projects(&files);
    proof {
        assert(file_names_outcome(project_paths(lines_of(content@)), opt_texts(files@)));
    }
    r
}

/// Whether a file name has the extension `slnx` in any case. A name that starts with its
/// only dot has none.
pub open spec fn slnx_name(name: Seq<char>) -> bool {
    let pieces = split_on(name, '.');
    &&& pieces.len() >= 2
    &&& pieces.len() > 2 || pieces[0].len() > 0
    &&& pieces.last().map_values(|c: char| ascii_lower(c)) == "slnx"@
}

/// Whether a file is a solution, by its name.
pub fn is_slnx(name: &str) -> (r: bool)
    ensures
        r == slnx_name(name@),
{
    let pieces = split(to_chars(name).as_slice(), '.');
    let ghost all = char_seqs(pieces@);
    let n: usize = pieces.len();
    proof {
        assert(all[0] == pieces@[0]@);
        assert(all.last() == pieces@[n - 1]@);
    }
    if n < 2 || (n == 2 && pieces[0].len() == 0) {
        return false;
    }
    let ext = lower_ascii(pieces[n - 1].as_slice());
    same(ext.as_slice(), to_chars("slnx").as_slice())
}

/// The characters with `A` to `Z` made `a` to `z`.
fn lower_ascii(s: &[char]) -> (r: Vec<char>)
    ensures
        r@ == s@.map_values(|c: char| ascii_lower(c)),
{
    let mut out: Vec<char> = Vec::new();
    let mut i: usize = 0;
    while i < s.len()
        invariant
            i <= s@.len(),
            out@ == s@.map_values(|c: char| ascii_lower(c)).take(i as int),
        decreases s@.len() - i,
    {
        let c = s[i];
        let low = if 'A' <= c && c <= 'Z' {
            (c as u8 + 32) as char
        } else {
            c
        };
        out.push(low);
        i = i + 1;
    }
    out
}

// ---------------------------------------------------------------------------
// Offering targets
// ---------------------------------------------------------------------------

/// Being another text than `t`.
pub open spec fn differs_from(t: Seq<char>) -> spec_fn(Seq<char>) -> bool {
    |x: Seq<char>| x != t
}

/// The list with `first` at its front, if it holds it.
pub open spec fn with_first(l: Seq<Seq<char>>, first: Seq<char>) -> Seq<Seq<char>> {
    if l.contains(first) {
        seq![first] + l.filter(differs_from(first))
    } else {
        l
    }
}

/// The targets in the order in which they are offered: `all`, then `install`, then the rest
/// as they were.
pub open spec fn offer_order(l: Seq<Seq<char>>) -> Seq<Seq<char>> {
    with_first(with_first(l, "install"@), "all"@)
}

/// Offering takes no target away and adds none.
pub proof fn lemma_offer_order(l: Seq<Seq<char>>)
    ensures
        forall|x: Seq<char>| #[trigger] offer_order(l).contains(x) <==> l.contains(x),
        l.contains("all"@) ==> offer_order(l)[0] == "all"@,
        l.contains("install"@) && !l.contains("all"@) ==> offer_order(l)[0] == "install"@,
        l.contains("install"@) && l.contains("all"@) ==> offer_order(l)[1] == "install"@,
{
    reveal_strlit("all");
    reveal_strlit("install");
    assert("all"@.len() == 3 && "install"@.len() == 7);
    let m = with_first(l, "install"@);
    lemma_with_first(l, "install"@);
    lemma_with_first(m, "all"@);
    if l.contains("install"@) && l.contains("all"@) {
        assert(m.contains("all"@));
        let p = differs_from("all"@);
        let rest = m.skip(1);
        assert(m == seq!["install"@] + rest);
        rest.lemma_filter_prepend("install"@, p);
        assert(m.filter(p)[0] == "install"@);
    }
}

proof fn lemma_with_first(l: Seq<Seq<char>>, first: Seq<char>)
    ensures
        forall|x: Seq<char>| #[trigger] with_first(l, first).contains(x) <==> l.contains(x),
        l.contains(first) ==> with_first(l, first)[0] == first,
{
    let p = differs_from(first);
    if l.contains(first) {
        broadcast use vstd::seq_lib::group_filter_ensures;

        let w = with_first(l, first);
        assert forall|x: Seq<char>| #[trigger] w.contains(x) <==> l.contains(x) by {
            if l.contains(x) && x != first {
                let i = choose|i: int| 0 <= i < l.len() && l[i] == x;
                assert(p(l[i]));
                assert(l.filter(p).contains(x));
                let j = choose|j: int| 0 <= j < l.filter(p).len() && l.filter(p)[j] == x;
                assert(w[j + 1] == x);
            }
            if x == first {
                assert(w[0] == x);
            }
            if w.contains(x) && x != first {
                let j = choose|j: int| 0 <= j < w.len() && w[j] == x;
                assert(l.filter(p)[j - 1] == x);
                l.lemma_filter_contains_rev(p, x);
            }
        }
    }
}

/// Moves `first` to the front, if the list holds it.
fn move_to_front(list: &Vec<String>, first: &str) -> (r: Vec<String>)
    ensures
        texts(r@) == with_first(texts(list@), first@),
{
    let ghost all = texts(list@);
    let ghost p = differs_from(first@);
    let held = position(list, first).is_some();
    let mut out: Vec<String> = Vec::new();
    if held {
        out.push(first.to_owned());
    }
    let ghost start = texts(out@);
    let mut i: usize = 0;
    proof {
        reveal(Seq::filter);
        assert(all.take(0).filter(p) =~= Seq::<Seq<char>>::empty());
        assert(start + all.take(0).filter(p) =~= start);
        assert(all.take(0) =~= Seq::<Seq<char>>::empty());
        assert(start + all.take(0) =~= start);
        assert(held ==> start =~= seq![first@]);
        assert(!held ==> start =~= Seq::<Seq<char>>::empty());
    }
    while i < list.len()
        invariant
            i <= list@.len(),
            all == texts(list@),
            p == differs_from(first@),
            held == all.contains(first@),
            held ==> texts(out@) == start + all.take(i as int).filter(p),
            !held ==> texts(out@) == start + all.take(i as int),
        decreases list@.len() - i,
    {
        let ghost before = out@;
        proof {
            reveal(Seq::filter);
            assert(all.take(i + 1).drop_last() == all.take(i as int));
            assert(all.take(i + 1).last() == list@[i as int]@);
            assert(all.take(i + 1) == all.take(i as int).push(list@[i as int]@));
            assert(all[i as int] == list@[i as int]@);
        }
        if !held || !equal(list[i].as_str(), first) {
            out.push(list[i].clone());
            proof {
                assert(texts(out@) =~= texts(before).push(list@[i as int]@));
                if held {
                    assert(texts(out@) =~= start + all.take(i + 1).filter(p));
                } else {
                    assert(texts(out@) =~= start + all.take(i + 1));
                }
            }
        }
        i = i + 1;
    }
    proof {
        assert(all.take(i as int) == all);
        if !held {
            assert(start + all =~= all);
        }
    }
    out
}

/// The targets in the order in which they are offered.
pub fn prioritize_targets(targets: &Vec<String>) -> (r: Vec<String>)
    ensures
        texts(r@) == offer_order(texts(targets@)),
{
    move_to_front(&move_to_front(targets, "install"), "all")
}

/// The targets that a build directory offers, in their order. With a generator of Visual Studio
/// they are those of the solution with this content, with any other those of this output of the
/// help target.
pub fn offered_targets(cache: &StringMap<String>, solution: &str, help: &str) -> (r: Vec<String>)
    requires
        cache.wf(),
    ensures
        studio_cache(cache@) ==> exists|files: Seq<Option<Seq<char>>>| #[trigger]
            file_names_outcome(project_paths(lines_of(solution@)), files) && texts(r@)
                == offer_order(first_copies(project_targets(files))),
        !studio_cache(cache@) ==> texts(r@) == offer_order(
            first_copies(help_targets(lines_of(help@))),
        ),
{
    let targets = if is_studio_cache(cache) {
        scan_targets_from_slnx(solution)
    } else {
        parse_cmake_target_help(help)
    };
    prioritize_targets(&targets)
}

/// The position of the target that was selected before, where it is still offered.
pub fn preserved_selection(targets: &Vec<String>, selected: &str) -> (r: Option<usize>)
    ensures
        is_first(r, targets@.len(), |k: int| targets@[k]@ == selected@),
{
    position(targets, selected)
}

} // verus!
