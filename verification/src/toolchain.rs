//! Toolchains, and what CMake is told of them.
use vstd::prelude::*;
use vstd::utf8::is_ascii_chars;

use crate::platform::{
    component, drive_letter, file_name_outcome, final_name, lemma_file_name, lemma_last_part,
    local_path, lowered, path_file_name, plain_name, readable_path, separator, slashed, string_of,
    tail_name, to_lowercase, verbatim_path, without_drive,
};
use crate::text::{
    clone_opt, digit, equal, is_first, lemma_split_appended, lemma_split_nonempty, lemma_tail,
    lemma_tail_unique, opt_text, opt_texts, split_on, str_starts_with, texts, to_chars,
    trim_end_text, without_suffixes,
};

verus! {

/// A compiler that was found on the host, and how CMake is to use it.
#[derive(Clone, Debug)]
pub struct Toolchain {
    pub id: String,
    pub name: String,
    pub version: String,
    pub path: String,
    pub cxx: Option<String>,
    pub generator: Option<String>,
    pub arch: Option<String>,
    pub triple: Option<String>,
    pub toolset: Option<String>,
}

/// The contents of a toolchain.
pub struct ToolchainView {
    pub id: Seq<char>,
    pub name: Seq<char>,
    pub version: Seq<char>,
    pub path: Seq<char>,
    pub cxx: Option<Seq<char>>,
    pub generator: Option<Seq<char>>,
    pub arch: Option<Seq<char>>,
    pub triple: Option<Seq<char>>,
    pub toolset: Option<Seq<char>>,
}

impl View for Toolchain {
    type V = ToolchainView;

    open spec fn view(&self) -> ToolchainView {
        ToolchainView {
            id: self.id@,
            name: self.name@,
            version: self.version@,
            path: self.path@,
            cxx: opt_text(self.cxx),
            generator: opt_text(self.generator),
            arch: opt_text(self.arch),
            triple: opt_text(self.triple),
            toolset: opt_text(self.toolset),
        }
    }
}

/// The contents of a list of toolchains.
pub open spec fn toolchain_views(v: Seq<Toolchain>) -> Seq<ToolchainView> {
    v.map_values(|t: Toolchain| t@)
}

/// The list of toolchains that is kept between runs.
pub struct ToolchainConfig {
    pub toolchains: Vec<Toolchain>,
}

impl Default for ToolchainConfig {
    /// No toolchains.
    fn default() -> (r: Self)
        ensures
            r.toolchains@.len() == 0,
    {
        ToolchainConfig { toolchains: Vec::new() }
    }
}

/// A copy of a toolchain.
pub fn copy_toolchain(tc: &Toolchain) -> (r: Toolchain)
    ensures
        r@ == tc@,
{
    Toolchain {
        id: tc.id.clone(),
        name: tc.name.clone(),
        version: tc.version.clone(),
        path: tc.path.clone(),
        cxx: clone_opt(&tc.cxx),
        generator: clone_opt(&tc.generator),
        arch: clone_opt(&tc.arch),
        triple: clone_opt(&tc.triple),
        toolset: clone_opt(&tc.toolset),
    }
}

// ---------------------------------------------------------------------------
// Compiler stems
// ---------------------------------------------------------------------------

/// The stem of a compiler's file name: in lower case, without `.exe`.
pub open spec fn stem_of(file: Seq<char>) -> Seq<char> {
    without_suffixes(lowered(file), ".exe"@)
}

/// What is known of the stem `r` of the compiler at `path`: it is the stem of the path's
/// file name, and there is none where the path has no file name.
pub open spec fn stem_outcome(path: Seq<char>, r: Option<Seq<char>>) -> bool {
    exists|f: Option<Seq<char>>| #[trigger]
        file_name_outcome(path, f) && r == (match f {
            Some(n) => Some(stem_of(n)),
            None => None,
        })
}

/// The stem of the compiler at `path` where paths are read as on Windows or as elsewhere.
pub open spec fn path_stem(path: Seq<char>, windows: bool) -> Option<Seq<char>> {
    match final_name(path, windows) {
        Some(n) => Some(stem_of(n)),
        None => None,
    }
}

/// A text in upper case, where `a` to `z` become `A` to `Z`.
pub open spec fn uppered(s: Seq<char>) -> Seq<char> {
    s.map_values(|c: char| if 'a' <= c <= 'z' { (c as u32 - 32) as char } else { c })
}

/// Dropping copies of a text at the end leaves none there.
proof fn lemma_without_suffixes(s: Seq<char>, p: Seq<char>)
    requires
        p.len() > 0,
    ensures
        !p.is_suffix_of(without_suffixes(s, p)),
        without_suffixes(s, p).is_prefix_of(s),
        without_suffixes(s + p, p) == without_suffixes(s, p),
    decreases s.len(),
{
    assert((s + p).take(s.len() as int) =~= s);
    assert(p.is_suffix_of(s + p)) by {
        assert((s + p).subrange(s.len() as int, (s + p).len() as int) =~= p);
    }
    if p.is_suffix_of(s) {
        lemma_without_suffixes(s.take(s.len() - p.len()), p);
    } else {
        assert(s.subrange(0, s.len() as int) =~= s);
    }
}

/// Neither `.exe` at the end of a file name of ASCII characters nor the case of its letters
/// counts for its stem, which does not end in `.exe` and has no slash where the name has none.
proof fn lemma_stem_of(n: Seq<char>)
    requires
        is_ascii_chars(n),
    ensures
        stem_of(n + ".exe"@) == stem_of(n),
        stem_of(uppered(n)) == stem_of(n),
        !".exe"@.is_suffix_of(stem_of(n)),
        !n.contains('/') ==> !stem_of(n).contains('/'),
{
    reveal_strlit(".exe");
    let exe = ".exe"@;
    assert(is_ascii_chars(exe));
    assert(is_ascii_chars(n + exe));
    assert(is_ascii_chars(uppered(n)));
    assert(lowered(n + exe) =~= lowered(n) + exe);
    assert(lowered(uppered(n)) =~= lowered(n));
    lemma_without_suffixes(lowered(n), exe);
    if stem_of(n).contains('/') && !n.contains('/') {
        let k = choose|k: int| 0 <= k < stem_of(n).len() && stem_of(n)[k] == '/';
        assert(lowered(n)[k] == '/');
        assert(n[k] == '/');
    }
}

/// Where the last piece between separators is a name, it is the final component.
proof fn lemma_final_name(p: Seq<char>, windows: bool, t: Seq<char>)
    requires
        tail_name(without_drive(p, windows), windows) == t,
        t.len() > 0,
        t != seq!['.'],
        t != seq!['.', '.'],
    ensures
        final_name(p, windows) == Some(t),
{
    lemma_last_part(slashed(without_drive(p, windows), windows), t);
}

/// However paths are read, the stem of a compiler at a path of ASCII characters that ends in a
/// letter or digit stays the same with `.exe` behind the path and in upper case. It has no
/// slash and does not end in `.exe`.
pub proof fn lemma_path_stem(p: Seq<char>, windows: bool)
    requires
        is_ascii_chars(p),
        p.len() > 0,
        drive_letter(p.last()) || digit(p.last()),
    ensures
        path_stem(p, windows) matches Some(s) && !s.contains('/') && !".exe"@.is_suffix_of(s),
        path_stem(p + ".exe"@, windows) == path_stem(p, windows),
        path_stem(uppered(p), windows) == path_stem(p, windows),
{
    reveal_strlit(".exe");
    let exe = ".exe"@;
    let q = without_drive(p, windows);
    let s = slashed(q, windows);
    let t = split_on(s, '/').last();
    lemma_tail(s, '/');
    assert(t.len() > 0) by {
        if t.len() == 0 {
            assert(s[s.len() - 1] == '/');
            assert(q.last() == p.last());
        }
    }
    assert(t.last() == p.last()) by {
        assert(s.skip(s.len() - t.len())[t.len() - 1] == t[t.len() - 1]);
        assert(s.last() == q.last() && q.last() == p.last());
    }
    assert(t != seq!['.'] && t != seq!['.', '.']) by {
        assert(seq!['.'].last() == '.' && seq!['.', '.'].last() == '.');
    }
    lemma_final_name(p, windows, t);
    assert(is_ascii_chars(t)) by {
        assert(is_ascii_chars(s));
        assert forall|i: int| 0 <= i < t.len() implies '\0' <= #[trigger] t[i] <= '\u{7f}' by {
            assert(s.skip(s.len() - t.len())[i] == t[i]);
        }
    }
    lemma_stem_of(t);
    // With `.exe` behind it.
    let q2 = without_drive(p + exe, windows);
    assert(q2 =~= q + exe);
    let s2 = slashed(q2, windows);
    assert(s2 =~= s + exe);
    let t2 = t + exe;
    assert(s2.skip(s2.len() - t2.len()) =~= t2) by {
        assert forall|i: int| 0 <= i < t.len() implies s[s.len() - t.len() + i] == t[i] by {
            assert(s.skip(s.len() - t.len())[i] == t[i]);
        }
    }
    assert(!t2.contains('/')) by {
        if t2.contains('/') {
            let k = choose|k: int| 0 <= k < t2.len() && t2[k] == '/';
            if k < t.len() {
                assert(t[k] == '/');
            }
        }
    }
    lemma_tail_unique(s2, '/', t2);
    lemma_final_name(p + exe, windows, t2);
    // In upper case.
    let q3 = without_drive(uppered(p), windows);
    assert(q3 =~= uppered(q));
    let s3 = slashed(q3, windows);
    assert(s3 =~= uppered(s));
    let t3 = uppered(t);
    assert(s3.skip(s3.len() - t3.len()) =~= t3) by {
        assert forall|i: int| 0 <= i < t.len() implies s[s.len() - t.len() + i] == t[i] by {
            assert(s.skip(s.len() - t.len())[i] == t[i]);
        }
    }
    assert(!t3.contains('/')) by {
        if t3.contains('/') {
            let k = choose|k: int| 0 <= k < t3.len() && t3[k] == '/';
            assert(t[k] == '/');
        }
    }
    lemma_tail_unique(s3, '/', t3);
    assert(t3.last() != '.') by {
        assert(t3[t3.len() - 1] == uppered(t)[t.len() - 1]);
    }
    assert(t3 != seq!['.'] && t3 != seq!['.', '.']) by {
        assert(seq!['.'].last() == '.' && seq!['.', '.'].last() == '.');
    }
    lemma_final_name(uppered(p), windows, t3);
}

/// The stem of a compiler at a path of ASCII characters that ends in a letter or digit, that at
/// the path with `.exe` behind it and that at the path in upper case are each what one of the
/// two readings of the path gives. They are the same where both readings give the same, as they
/// do where the name after the last slash is ordinary on every platform. None has a slash or
/// ends in `.exe`.
pub proof fn lemma_compiler_stem(
    p: Seq<char>,
    r: Option<Seq<char>>,
    with_exe: Option<Seq<char>>,
    upper: Option<Seq<char>>,
)
    requires
        is_ascii_chars(p),
        p.len() > 0,
        drive_letter(p.last()) || digit(p.last()),
        readable_path(p, 1),
        stem_outcome(p, r),
        stem_outcome(p + ".exe"@, with_exe),
        stem_outcome(uppered(p), upper),
    ensures
        r == path_stem(p, false) || r == path_stem(p, true),
        with_exe == path_stem(p, false) || with_exe == path_stem(p, true),
        upper == path_stem(p, false) || upper == path_stem(p, true),
        r matches Some(s) && !s.contains('/') && !".exe"@.is_suffix_of(s),
        path_stem(p, false) == path_stem(p, true) ==> with_exe == r && upper == r,
        plain_name(tail_name(p, false)) ==> path_stem(p, false) == path_stem(p, true),
{
    reveal_strlit(".exe");
    let exe = ".exe"@;
    lemma_path_stem(p, false);
    lemma_path_stem(p, true);
    lemma_readable_kept(p);
    lemma_read_stem(p, r);
    lemma_read_stem(p + exe, with_exe);
    lemma_read_stem(uppered(p), upper);
    if plain_name(tail_name(p, false)) {
        lemma_file_name(p, final_name(p, false));
        lemma_file_name(p, final_name(p, true));
    }
}

/// A path stays readable with `.exe` behind it and in upper case.
proof fn lemma_readable_kept(p: Seq<char>)
    requires
        is_ascii_chars(p),
        p.len() > 0,
        drive_letter(p.last()) || digit(p.last()),
        readable_path(p, 1),
    ensures
        readable_path(p + ".exe"@, 1),
        readable_path(uppered(p), 1),
{
    reveal_strlit(".exe");
    let exe = ".exe"@;
    let p2 = p + exe;
    let p3 = uppered(p);
    if local_path(p) {
        assert(local_path(p2));
        assert(local_path(p3));
    } else {
        let s = slashed(p, true);
        assert(without_drive(p, true) == p);
        assert(p.len() >= 3) by {
            assert(!separator(p[p.len() - 1]));
        }
        assert(without_drive(p2, true) == p2);
        assert(without_drive(p3, true) == p3);
        assert(slashed(p2, true) =~= s + exe);
        assert(slashed(p3, true) =~= uppered(s));
        lemma_parts_with_exe(s);
        lemma_parts_upper(s);
        assert(!verbatim_path(p2));
        assert(!verbatim_path(p3));
    }
}

/// `.exe` behind a path that ends in neither a slash nor a dot adds no component and takes none.
proof fn lemma_parts_with_exe(s: Seq<char>)
    requires
        s.len() > 0,
        s.last() != '/',
        s.last() != '.',
    ensures
        split_on(s + ".exe"@, '/').filter(component()).len() == split_on(s, '/').filter(
            component(),
        ).len(),
{
    reveal_strlit(".exe");
    reveal(Seq::filter);
    let exe = ".exe"@;
    let a = split_on(s, '/');
    let t = a.last();
    lemma_split_nonempty(s, '/');
    lemma_tail(s, '/');
    assert(t.len() > 0 && t.last() == s.last()) by {
        assert(t.len() > 0);
        assert(s.skip(s.len() - t.len())[t.len() - 1] == t[t.len() - 1]);
    }
    assert(t != seq!['.']) by {
        assert(seq!['.'].last() == '.');
    }
    assert(!exe.contains('/'));
    lemma_split_appended(s, exe, '/');
    let b = split_on(s + exe, '/');
    assert(b.drop_last() =~= a.drop_last());
    assert(b.last() == t + exe);
    assert((t + exe).len() > 1);
}

/// Upper case adds no component and takes none.
proof fn lemma_parts_upper(s: Seq<char>)
    ensures
        split_on(uppered(s), '/').filter(component()).len() == split_on(s, '/').filter(
            component(),
        ).len(),
        split_on(uppered(s), '/') == split_on(s, '/').map_values(|c: Seq<char>| uppered(c)),
{
    lemma_split_upper(s);
    lemma_filter_upper(split_on(s, '/'));
}

/// Splitting at slashes and upper case can change places.
proof fn lemma_split_upper(s: Seq<char>)
    ensures
        split_on(uppered(s), '/') == split_on(s, '/').map_values(|c: Seq<char>| uppered(c)),
    decreases s.len(),
{
    let f = |c: Seq<char>| uppered(c);
    let none = Seq::<char>::empty();
    assert(uppered(none) =~= none);
    if s.len() == 0 {
        assert(uppered(s) =~= none);
        assert(split_on(s, '/').map_values(f) =~= seq![none]);
    } else {
        let init = s.drop_last();
        let before = split_on(init, '/');
        lemma_split_upper(init);
        lemma_split_nonempty(init, '/');
        assert(uppered(s).drop_last() =~= uppered(init));
        if s.last() == '/' {
            assert(before.push(none).map_values(f) =~= before.map_values(f).push(none));
        } else {
            let piece = before.last().push(s.last());
            assert(uppered(piece) =~= uppered(before.last()).push(uppered(s).last()));
            assert(before.drop_last().push(piece).map_values(f) =~= before.map_values(
                f,
            ).drop_last().push(uppered(piece)));
        }
    }
}

/// As many pieces are components in upper case.
proof fn lemma_filter_upper(l: Seq<Seq<char>>)
    ensures
        l.map_values(|c: Seq<char>| uppered(c)).filter(component()).len() == l.filter(
            component(),
        ).len(),
    decreases l.len(),
{
    reveal(Seq::filter);
    let f = |c: Seq<char>| uppered(c);
    if l.len() > 0 {
        lemma_filter_upper(l.drop_last());
        let u = l.map_values(f);
        assert(u.drop_last() =~= l.drop_last().map_values(f));
        assert(u.last() == uppered(l.last()));
        let c = l.last();
        if uppered(c) == seq!['.'] {
            assert(uppered(c)[0] == '.');
            assert(c =~= seq!['.']);
        }
        if c == seq!['.'] {
            assert(uppered(c) =~= seq!['.']);
        }
    }
}

/// The stem that is known of a readable path is what one of its readings gives.
proof fn lemma_read_stem(p: Seq<char>, r: Option<Seq<char>>)
    requires
        readable_path(p, 1),
        stem_outcome(p, r),
    ensures
        r == path_stem(p, false) || r == path_stem(p, true),
{
}

/// The stem of a compiler's file name.
pub fn stem_of_file_name(file: &str) -> (r: String)
    ensures
        r@ == stem_of(file@),
{
    proof {
        reveal_strlit(".exe");
    }
    let low = to_lowercase(file);
    string_of(trim_end_text(to_chars(low.as_str()).as_slice(), ".exe"))
}

/// The stem of the compiler at `path`. What the file name of a path is, the platform says:
/// a last component after a slash that is ordinary everywhere is it everywhere.
pub fn compiler_stem(path: &str) -> (r: Option<String>)
    ensures
        stem_outcome(path@, opt_text(r)),
        readable_path(path@, 1) ==> opt_text(r) == path_stem(path@, false) || opt_text(r)
            == path_stem(path@, true),
        readable_path(path@, 1) && plain_name(tail_name(path@, false)) ==> opt_text(r) == Some(
            stem_of(tail_name(path@, false)),
        ),
        readable_path(path@, 1) && tail_name(path@, false) == seq!['.', '.'] ==> r is None,
        opt_text(r) matches Some(s) ==> !".exe"@.is_suffix_of(s),
{
    proof {
        reveal_strlit(".exe");
    }
    let file = path_file_name(path);
    let ghost f = opt_text(file);
    proof {
        if readable_path(path@, 1) {
            lemma_file_name(path@, f);
        }
    }
    match file {
        Some(n) => {
            let stem = stem_of_file_name(n.as_str());
            proof {
                lemma_without_suffixes(lowered(n@), ".exe"@);
                assert(f == Some(n@));
                assert(file_name_outcome(path@, f));
            }
            Some(stem)
        },
        None => {
            proof {
                assert(file_name_outcome(path@, f));
            }
            None
        },
    }
}

/// The stems of the compilers of a list.
pub open spec fn stems_outcome(list: Seq<Toolchain>, stems: Seq<Option<Seq<char>>>) -> bool {
    &&& stems.len() == list.len()
    &&& forall|i: int| 0 <= i < list.len() ==> stem_outcome(list[i].path@, #[trigger] stems[i])
}

/// The stems of the compilers of `list`, in its order.
pub fn compiler_stems(list: &Vec<Toolchain>) -> (r: Vec<Option<String>>)
    ensures
        stems_outcome(list@, opt_texts(r@)),
{
    let mut out: Vec<Option<String>> = Vec::new();
    let mut i: usize = 0;
    while i < list.len()
        invariant
            i <= list@.len(),
            out@.len() == i,
            forall|k: int| 0 <= k < i ==> stem_outcome(list@[k].path@, #[trigger] opt_texts(out@)[k]),
        decreases list@.len() - i,
    {
        let ghost before = out@;
        let stem = compiler_stem(list[i].path.as_str());
        out.push(stem);
        proof {
            assert forall|k: int| 0 <= k < i + 1 implies stem_outcome(
                list@[k].path@,
                #[trigger] opt_texts(out@)[k],
            ) by {
                if k < i {
                    assert(opt_texts(out@)[k] == opt_texts(before)[k]);
                }
            }
        }
        i = i + 1;
    }
    out
}

/// The position of the first stem that is `stem`.
pub fn position_of_stem(stems: &Vec<Option<String>>, stem: &str) -> (r: Option<usize>)
    ensures
        is_first(r, stems@.len(), |k: int| opt_text(stems@[k]) == Some(stem@)),
{
    let mut i: usize = 0;
    while i < stems.len()
        invariant
            i <= stems@.len(),
            forall|k: int| 0 <= k < i ==> opt_text(#[trigger] stems@[k]) != Some(stem@),
        decreases stems@.len() - i,
    {
        match &stems[i] {
            Some(s) => {
                if equal(s.as_str(), stem) {
                    return Some(i);
                }
            },
            None => {},
        }
        i = i + 1;
    }
    None
}

/// The position of the first toolchain of `list` whose compiler has the stem `stem`.
pub fn toolchain_with_stem(list: &Vec<Toolchain>, stem: &str) -> (r: Option<usize>)
    ensures
        exists|stems: Seq<Option<Seq<char>>>| #[trigger]
            stems_outcome(list@, stems) && is_first(
                r,
                list@.len(),
                |k: int| stems[k] == Some(stem@),
            ),
{
    let stems = compiler_stems(list);
    let r = position_of_stem(&stems, stem);
    proof {
        let outs = opt_texts(stems@);
        let p = |k: int| opt_text(stems@[k]) == Some(stem@);
        let q = |k: int| outs[k] == Some(stem@);
        assert forall|k: int| 0 <= k < list@.len() implies #[trigger] q(k) == p(k) by {}
        assert(stems_outcome(list@, outs));
        assert(is_first(r, list@.len(), q));
    }
    r
}

/// The position of the first toolchain with this identifier and architecture. An empty
/// `arch` stands for any.
pub fn toolchain_with_id_arch(list: &Vec<Toolchain>, id: &str, arch: &str) -> (r: Option<usize>)
    ensures
        is_first(
            r,
            list@.len(),
            |k: int|
                list@[k]@.id == id@ && (arch@.len() == 0 || list@[k]@.arch == Some(arch@)),
        ),
{
    let ghost p = |k: int| list@[k]@.id == id@ && (arch@.len() == 0 || list@[k]@.arch == Some(arch@));
    let mut i: usize = 0;
    while i < list.len()
        invariant
            i <= list@.len(),
            p == (|k: int|
                list@[k]@.id == id@ && (arch@.len() == 0 || list@[k]@.arch == Some(arch@))),
            forall|k: int| 0 <= k < i ==> !(#[trigger] p(k)),
        decreases list@.len() - i,
    {
        let fits = if arch.is_empty() {
            true
        } else {
            match &list[i].arch {
                Some(a) => equal(a.as_str(), arch),
                None => false,
            }
        };
        if equal(list[i].id.as_str(), id) && fits {
            proof {
                assert(p(i as int));
            }
            return Some(i);
        }
        i = i + 1;
    }
    None
}

// ---------------------------------------------------------------------------
// Arguments for CMake
// ---------------------------------------------------------------------------

/// Whether the toolchain's generator is one of Visual Studio, which chooses the build type
/// when it builds.
pub open spec fn multi_config(tc: ToolchainView) -> bool {
    tc.generator matches Some(g) && "Visual Studio"@.is_prefix_of(g)
}

/// Whether the toolchain's generator chooses the build type when it builds.
pub fn is_multi_config(tc: &Toolchain) -> (r: bool)
    ensures
        r == multi_config(tc@),
{
    match &tc.generator {
        Some(g) => str_starts_with(g.as_str(), "Visual Studio"),
        None => false,
    }
}

/// The arguments that give `flag` the value `o`, if it has one.
pub open spec fn flag_args(flag: Seq<char>, o: Option<Seq<char>>) -> Seq<Seq<char>> {
    match o {
        Some(v) => seq![flag, v],
        None => Seq::<Seq<char>>::empty(),
    }
}

/// Appends the arguments that give `flag` the value `o`, if it has one.
fn push_flag(args: &mut Vec<String>, flag: &str, o: &Option<String>)
    ensures
        texts(final(args)@) == texts(old(args)@) + flag_args(flag@, opt_text(*o)),
{
    let ghost before = args@;
    match o {
        Some(v) => {
            args.push(flag.to_owned());
            args.push(v.clone());
            proof {
                assert(texts(args@) =~= texts(before) + seq![flag@, v@]);
            }
        },
        None => {
            proof {
                assert(texts(args@) =~= texts(before) + Seq::<Seq<char>>::empty());
            }
        },
    }
}

/// Appends the arguments that choose the toolchain's generator, if it names one.
pub fn push_generator(args: &mut Vec<String>, tc: &Toolchain)
    ensures
        texts(final(args)@) == texts(old(args)@) + flag_args("-G"@, tc@.generator),
{
    push_flag(args, "-G", &tc.generator);
}

/// The C++ compiler to use: the toolchain's own, or the one that goes with the C compiler's
/// stem.
pub open spec fn cxx_compiler_of(tc: ToolchainView, stem: Option<Seq<char>>) -> Seq<char> {
    match tc.cxx {
        Some(c) => c,
        None => if stem == Some("gcc"@) {
            "g++"@
        } else {
            "clang++"@
        },
    }
}

/// The arguments that make CMake use the toolchain, whose C compiler has the stem `stem`. A
/// generator of Visual Studio is told its platform and toolset; any other is told the
/// compilers.
pub open spec fn compiler_args_of(tc: ToolchainView, stem: Option<Seq<char>>) -> Seq<Seq<char>> {
    if multi_config(tc) {
        flag_args("-G"@, tc.generator) + flag_args("-A"@, tc.arch) + flag_args("-T"@, tc.toolset)
    } else {
        flag_args("-G"@, tc.generator) + seq![
            "-DCMAKE_C_COMPILER="@ + tc.path,
            "-DCMAKE_CXX_COMPILER="@ + cxx_compiler_of(tc, stem),
        ]
    }
}

/// The arguments that make CMake use the toolchain, whose C compiler has the stem `stem`.
pub fn compiler_args(tc: &Toolchain, stem: &Option<String>) -> (r: Vec<String>)
    ensures
        texts(r@) == compiler_args_of(tc@, opt_text(*stem)),
{
    let mut args: Vec<String> = Vec::new();
    proof {
        assert(texts(args@) =~= Seq::<Seq<char>>::empty());
    }
    push_generator(&mut args, tc);
    proof {
        assert(texts(args@) =~= flag_args("-G"@, tc@.generator));
    }
    if is_multi_config(tc) {
        push_flag(&mut args, "-A", &tc.arch);
        push_flag(&mut args, "-T", &tc.toolset);
        return args;
    }
    let ghost before = args@;
    args.push("-DCMAKE_C_COMPILER=".to_owned().concat(tc.path.as_str()));
    let cxx = match &tc.cxx {
        Some(c) => c.clone(),
        None => {
            let gcc = match stem {
                Some(s) => equal(s.as_str(), "gcc"),
                None => false,
            };
            if gcc {
                "g++".to_owned()
            } else {
                "clang++".to_owned()
            }
        },
    };
    args.push("-DCMAKE_CXX_COMPILER=".to_owned().concat(cxx.as_str()));
    proof {
        assert(texts(args@) =~= texts(before) + seq![
            "-DCMAKE_C_COMPILER="@ + tc@.path,
            "-DCMAKE_CXX_COMPILER="@ + cxx_compiler_of(tc@, opt_text(*stem)),
        ]);
    }
    args
}

/// What is known of the arguments `args` that make CMake use the toolchain.
pub open spec fn configure_compiler_outcome(tc: ToolchainView, args: Seq<Seq<char>>) -> bool {
    exists|stem: Option<Seq<char>>| #[trigger]
        stem_outcome(tc.path, stem) && args == compiler_args_of(tc, stem)
}

/// The arguments that make CMake use the toolchain.
pub fn configure_compiler_args(tc: &Toolchain) -> (r: Vec<String>)
    ensures
        configure_compiler_outcome(tc@, texts(r@)),
        tc@.cxx is Some || multi_config(tc@) ==> texts(r@) == compiler_args_of(tc@, None),
{
    let stem = compiler_stem(tc.path.as_str());
    compiler_args(tc, &stem)
}

/// A generator of Visual Studio is never told a compiler, and any other always is: no
/// toolchain gets a generator together with compilers that do not go with it.
pub proof fn lemma_compiler_args_match_generator(tc: ToolchainView, stem: Option<Seq<char>>)
    ensures
        multi_config(tc) ==> compiler_args_of(tc, stem) == compiler_args_of(tc, None) && forall|
            i: int,
        |
            0 <= i < compiler_args_of(tc, stem).len() && i % 2 == 0 ==> {
                let a = #[trigger] compiler_args_of(tc, stem)[i];
                a == "-G"@ || a == "-A"@ || a == "-T"@
            },
        !multi_config(tc) ==> {
            let args = compiler_args_of(tc, stem);
            &&& args.len() >= 2
            &&& "-DCMAKE_C_COMPILER="@.is_prefix_of(args[args.len() - 2])
            &&& "-DCMAKE_CXX_COMPILER="@.is_prefix_of(args[args.len() - 1])
        },
{
}

// ---------------------------------------------------------------------------
// Display
// ---------------------------------------------------------------------------

/// The line that stands for a toolchain in a list: its name and version, its target or else
/// its architecture, and its path.
pub open spec fn label_of(tc: ToolchainView) -> Seq<char> {
    let head = tc.name + " ("@ + tc.version + ")"@;
    let target = match tc.triple {
        Some(t) => " ["@ + t + "]"@,
        None => match tc.arch {
            Some(a) => " ["@ + a + "]"@,
            None => Seq::<char>::empty(),
        },
    };
    head + target + "  "@ + tc.path
}

/// The name and version of a toolchain.
pub fn toolchain_title(tc: &Toolchain) -> (r: String)
    ensures
        r@ == tc@.name + " ("@ + tc@.version + ")"@,
{
    let mut out = tc.name.clone();
    out.append(" (");
    out.append(tc.version.as_str());
    out.append(")");
    out
}

/// The line that stands for a toolchain in a list.
pub fn toolchain_label(tc: &Toolchain) -> (r: String)
    ensures
        r@ == label_of(tc@),
{
    let mut out = toolchain_title(tc);
    let ghost head = out@;
    match &tc.triple {
        Some(t) => {
            out.append(" [");
            out.append(t.as_str());
            out.append("]");
            proof {
                assert(out@ =~= head + (" ["@ + t@ + "]"@));
            }
        },
        None => match &tc.arch {
            Some(a) => {
                out.append(" [");
                out.append(a.as_str());
                out.append("]");
                proof {
                    assert(out@ =~= head + (" ["@ + a@ + "]"@));
                }
            },
            None => {
                proof {
                    assert(out@ =~= head + Seq::<char>::empty());
                }
            },
        },
    }
    out.append("  ");
    out.append(tc.path.as_str());
    out
}

} // verus!
