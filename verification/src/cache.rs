//! CMake's cache: reading it, and what its entries say of a build directory.
use vstd::prelude::*;
use vstd::slice::slice_subrange;

use crate::platform::{lowered, string_of, to_lowercase};
use crate::string_map::StringMap;
use crate::text::{
    char_seqs, contains_text, equal, find, first_at, is_first, lines, lines_of, occurs_at, opt_text,
    starts_with,
    str_contains, to_chars, trim, trimmed,
};
use crate::toolchain::{
    compiler_stem, stem_outcome, stems_outcome, toolchain_with_id_arch, toolchain_with_stem,
    Toolchain, ToolchainView,
};

verus! {

// ---------------------------------------------------------------------------
// Reading
// ---------------------------------------------------------------------------

/// The key and value that a line of a cache writes as `key:type=value`. Lines that are
/// empty, start with `#`, or lack the equals sign or a colon before it write nothing.
pub open spec fn cache_entry(line: Seq<char>) -> Option<(Seq<char>, Seq<char>)> {
    let l = trimmed(line);
    if l.len() == 0 || "#"@.is_prefix_of(l) {
        None
    } else {
        match first_at(l, "="@) {
            Some(eq) => match first_at(l.take(eq), ":"@) {
                Some(colon) => Some((trimmed(l.take(eq).take(colon)), l.skip(eq + 1))),
                None => None,
            },
            None => None,
        }
    }
}

/// The entries that lines of a cache write; a later one replaces an earlier one with the
/// same key.
pub open spec fn cache_of_lines(ls: Seq<Seq<char>>) -> Map<Seq<char>, Seq<char>>
    decreases ls.len(),
{
    if ls.len() == 0 {
        Map::empty()
    } else {
        let before = cache_of_lines(ls.drop_last());
        match cache_entry(ls.last()) {
            Some((key, value)) => before.insert(key, value),
            None => before,
        }
    }
}

/// The entries of a cache with this content.
pub open spec fn cache_of(content: Seq<char>) -> Map<Seq<char>, Seq<char>> {
    cache_of_lines(lines_of(content))
}

/// The key and value that a line of a cache writes.
fn parse_cache_line(line: &[char]) -> (r: Option<(String, String)>)
    ensures
        match r {
            Some((key, value)) => cache_entry(line@) == Some((key@, value@)),
            None => cache_entry(line@) is None,
        },
{
    proof {
        reveal_strlit("=");
    }
    let l = trim(line);
    let n: usize = l.len();
    if n == 0 || starts_with(l, "#") {
        return None;
    }
    match find(l, "=") {
        Some(eq) => {
            let key_part = slice_subrange(l, 0, eq);
            proof {
                assert(key_part@ == l@.take(eq as int));
            }
            match find(key_part, ":") {
                Some(colon) => {
                    let key = slice_subrange(key_part, 0, colon);
                    let value = slice_subrange(l, eq + 1, n);
                    proof {
                        assert(key@ == key_part@.take(colon as int));
                        assert(value@ == l@.skip(eq + 1));
                    }
                    Some((string_of(trim(key)), string_of(value)))
                },
                None => None,
            }
        },
        None => None,
    }
}

/// The entries of a cache.
pub fn parse_cmake_cache(content: &str) -> (r: StringMap<String>)
    ensures
        r.wf(),
        r@ == cache_of(content@),
{
    let ls = lines(to_chars(content).as_slice());
    let ghost all = char_seqs(ls@);
    let mut map: StringMap<String> = StringMap::new();
    let mut i: usize = 0;
    proof {
        assert(all.take(0) =~= Seq::<Seq<char>>::empty());
    }
    while i < ls.len()
        invariant
            i <= ls@.len(),
            all == char_seqs(ls@),
            map.wf(),
            map@ == cache_of_lines(all.take(i as int)),
        decreases ls@.len() - i,
    {
        proof {
            assert(all.take(i + 1).drop_last() == all.take(i as int));
            assert(all.take(i + 1).last() == ls@[i as int]@);
        }
        match parse_cache_line(ls[i].as_slice()) {
            Some((key, value)) => {
                map.insert(key, value);
            },
            None => {},
        }
        i = i + 1;
    }
    proof {
        assert(all.take(i as int) == all);
    }
    map
}

/// Whether a line of a cache writes a key.
pub open spec fn writes(line: Seq<char>, key: Seq<char>) -> bool {
    cache_entry(line) matches Some((k, _)) && k == key
}

/// The value that a line of a cache writes.
pub open spec fn written(line: Seq<char>) -> Seq<char> {
    match cache_entry(line) {
        Some((_, v)) => v,
        None => Seq::<char>::empty(),
    }
}

/// The last line that writes a key decides its value, and a key that no line writes has
/// none.
pub proof fn lemma_cache_last_line_wins(ls: Seq<Seq<char>>, key: Seq<char>)
    ensures
        cache_of_lines(ls).contains_key(key) <==> exists|i: int|
            0 <= i < ls.len() && writes(#[trigger] ls[i], key),
        forall|i: int|
            0 <= i < ls.len() && writes(#[trigger] ls[i], key) && (forall|j: int|
                i < j < ls.len() ==> !writes(#[trigger] ls[j], key)) ==> cache_of_lines(ls)[key]
                == written(ls[i]),
    decreases ls.len(),
{
    if ls.len() > 0 {
        let init = ls.drop_last();
        let n = ls.len() - 1;
        lemma_cache_last_line_wins(init, key);
        assert(ls.last() == ls[n]);
        assert forall|i: int| 0 <= i < n implies #[trigger] init[i] == ls[i] by {}
        if cache_of_lines(init).contains_key(key) {
            let i = choose|i: int| 0 <= i < init.len() && writes(#[trigger] init[i], key);
            assert(writes(ls[i], key));
        }
        if exists|i: int| 0 <= i < ls.len() && writes(#[trigger] ls[i], key) {
            let i = choose|i: int| 0 <= i < ls.len() && writes(#[trigger] ls[i], key);
            if i < n {
                assert(writes(init[i], key));
            }
        }
        assert forall|i: int|
            0 <= i < ls.len() && writes(#[trigger] ls[i], key) && (forall|j: int|
                i < j < ls.len() ==> !writes(#[trigger] ls[j], key)) implies cache_of_lines(ls)[key]
            == written(ls[i]) by {
            if i < n {
                assert(!writes(ls[n], key));
                assert(writes(init[i], key));
                assert forall|j: int| i < j < init.len() implies !writes(
                    #[trigger] init[j],
                    key,
                ) by {
                    assert(!writes(ls[j], key));
                }
            }
        }
    }
}

// ---------------------------------------------------------------------------
// The state of a build directory
// ---------------------------------------------------------------------------

/// Whether an entry of the cache says that something was not found.
pub open spec fn entry_not_found(cache: Map<Seq<char>, Seq<char>>, key: Seq<char>) -> bool {
    cache.contains_key(key) && contains_text(cache[key], "NOTFOUND"@)
}

/// Whether a cache was left by a run that did not find a compiler, linker or archiver.
pub open spec fn broken(cache: Map<Seq<char>, Seq<char>>) -> bool {
    ||| entry_not_found(cache, "CMAKE_C_COMPILER"@)
    ||| entry_not_found(cache, "CMAKE_CXX_COMPILER"@)
    ||| entry_not_found(cache, "CMAKE_LINKER"@)
    ||| entry_not_found(cache, "CMAKE_AR"@)
}

/// Whether an entry of the cache says that something was not found.
fn not_found(cache: &StringMap<String>, key: &str) -> (r: bool)
    requires
        cache.wf(),
    ensures
        r == entry_not_found(cache@, key@),
{
    match cache.get(key) {
        Some(v) => str_contains(v.as_str(), "NOTFOUND"),
        None => false,
    }
}

/// Whether a cache was left by a run that did not find a compiler, linker or archiver.
pub fn broken_cache(cache: &StringMap<String>) -> (r: bool)
    requires
        cache.wf(),
    ensures
        r == broken(cache@),
{
    not_found(cache, "CMAKE_C_COMPILER") || not_found(cache, "CMAKE_CXX_COMPILER") || not_found(
        cache,
        "CMAKE_LINKER",
    ) || not_found(cache, "CMAKE_AR")
}

/// The change from the cached value of a key to a wanted one, where the key is cached with
/// another value.
pub open spec fn change_of(
    cache: Map<Seq<char>, Seq<char>>,
    key: Seq<char>,
    label: Seq<char>,
    wanted: Option<Seq<char>>,
) -> Option<Seq<char>> {
    match wanted {
        Some(w) => if cache.contains_key(key) && cache[key] != w {
            Some(label + cache[key] + " -> "@ + w)
        } else {
            None
        },
        None => None,
    }
}

/// What the toolchain would change in the cache that CMake does not let change: its
/// generator, then its platform, then its toolset. A toolchain that names no generator
/// changes none.
pub open spec fn conflict_of(cache: Map<Seq<char>, Seq<char>>, tc: ToolchainView) -> Option<
    Seq<char>,
> {
    if tc.generator is None {
        None
    } else {
        match change_of(cache, "CMAKE_GENERATOR"@, "generator: "@, tc.generator) {
            Some(c) => Some(c),
            None => match change_of(cache, "CMAKE_GENERATOR_PLATFORM"@, "platform: "@, tc.arch) {
                Some(c) => Some(c),
                None => change_of(cache, "CMAKE_GENERATOR_TOOLSET"@, "toolset: "@, tc.toolset),
            },
        }
    }
}

/// The change from the cached value of a key to a wanted one.
fn change(cache: &StringMap<String>, key: &str, label: &str, wanted: &Option<String>) -> (r: Option<
    String,
>)
    requires
        cache.wf(),
    ensures
        opt_text(r) == change_of(cache@, key@, label@, opt_text(*wanted)),
{
    match wanted {
        Some(w) => match cache.get(key) {
            Some(v) => {
                if equal(v.as_str(), w.as_str()) {
                    None
                } else {
                    let mut out = label.to_owned();
                    out.append(v.as_str());
                    out.append(" -> ");
                    out.append(w.as_str());
                    Some(out)
                }
            },
            None => None,
        },
        None => None,
    }
}

/// What the toolchain would change in the cache that CMake does not let change.
pub fn stale_cache_conflict(cache: &StringMap<String>, tc: &Toolchain) -> (r: Option<String>)
    requires
        cache.wf(),
    ensures
        opt_text(r) == conflict_of(cache@, tc@),
{
    if tc.generator.is_none() {
        return None;
    }
    match change(cache, "CMAKE_GENERATOR", "generator: ", &tc.generator) {
        Some(c) => Some(c),
        None => match change(cache, "CMAKE_GENERATOR_PLATFORM", "platform: ", &tc.arch) {
            Some(c) => Some(c),
            None => change(cache, "CMAKE_GENERATOR_TOOLSET", "toolset: ", &tc.toolset),
        },
    }
}

/// A build directory without a cache is neither stale nor broken.
pub proof fn lemma_empty_cache_is_clean(tc: ToolchainView)
    ensures
        conflict_of(Map::<Seq<char>, Seq<char>>::empty(), tc) is None,
        !broken(Map::<Seq<char>, Seq<char>>::empty()),
{
}

/// A cache with the toolchain's own generator, platform and toolset is not stale.
pub proof fn lemma_own_cache_is_current(cache: Map<Seq<char>, Seq<char>>, tc: ToolchainView)
    requires
        cache.contains_key("CMAKE_GENERATOR"@) ==> Some(cache["CMAKE_GENERATOR"@]) == tc.generator,
        cache.contains_key("CMAKE_GENERATOR_PLATFORM"@) ==> Some(
            cache["CMAKE_GENERATOR_PLATFORM"@],
        ) == tc.arch,
        cache.contains_key("CMAKE_GENERATOR_TOOLSET"@) ==> Some(cache["CMAKE_GENERATOR_TOOLSET"@])
            == tc.toolset,
    ensures
        conflict_of(cache, tc) is None,
{
}

/// Whether a cache is one of a generator of Visual Studio.
pub open spec fn studio_cache(cache: Map<Seq<char>, Seq<char>>) -> bool {
    cache.contains_key("CMAKE_GENERATOR"@) && contains_text(
        cache["CMAKE_GENERATOR"@],
        "Visual Studio"@,
    )
}

/// Whether a cache is one of a generator of Visual Studio.
pub fn is_studio_cache(cache: &StringMap<String>) -> (r: bool)
    requires
        cache.wf(),
    ensures
        r == studio_cache(cache@),
{
    match cache.get("CMAKE_GENERATOR") {
        Some(g) => str_contains(g.as_str(), "Visual Studio"),
        None => false,
    }
}

// ---------------------------------------------------------------------------
// Restoring a selection
// ---------------------------------------------------------------------------

/// Which toolchain a cache was made with.
#[derive(Clone, Debug)]
pub enum ToolchainChoice {
    /// The cache does not say.
    Unknown,
    /// The one with this identifier and, unless it is empty, this architecture.
    ByIdArch { id: String, arch: String },
    /// The one whose compiler has this stem.
    ByStem { stem: String },
}

/// The contents of a choice.
pub enum ChoiceView {
    Unknown,
    ByIdArch { id: Seq<char>, arch: Seq<char> },
    ByStem { stem: Seq<char> },
}

impl View for ToolchainChoice {
    type V = ChoiceView;

    open spec fn view(&self) -> ChoiceView {
        match self {
            ToolchainChoice::Unknown => ChoiceView::Unknown,
            ToolchainChoice::ByIdArch { id, arch } => ChoiceView::ByIdArch {
                id: id@,
                arch: arch@,
            },
            ToolchainChoice::ByStem { stem } => ChoiceView::ByStem { stem: stem@ },
        }
    }
}

/// The build type that a cache was made with, in lower case.
pub open spec fn cached_build_type_of(cache: Map<Seq<char>, Seq<char>>) -> Option<Seq<char>> {
    if cache.contains_key("CMAKE_BUILD_TYPE"@) && cache["CMAKE_BUILD_TYPE"@].len() > 0 {
        Some(lowered(cache["CMAKE_BUILD_TYPE"@]))
    } else {
        None
    }
}

/// The value of a key, or the empty text.
pub open spec fn value_or_empty(cache: Map<Seq<char>, Seq<char>>, key: Seq<char>) -> Seq<char> {
    if cache.contains_key(key) {
        cache[key]
    } else {
        Seq::<char>::empty()
    }
}

/// The compiler that a cache names: that for C if it was found, or else that for C++.
pub open spec fn cached_compiler_of(cache: Map<Seq<char>, Seq<char>>) -> Option<Seq<char>> {
    if cache.contains_key("CMAKE_C_COMPILER"@) && cache["CMAKE_C_COMPILER"@].len() > 0
        && !contains_text(cache["CMAKE_C_COMPILER"@], "NOTFOUND"@) {
        Some(cache["CMAKE_C_COMPILER"@])
    } else if cache.contains_key("CMAKE_CXX_COMPILER"@) {
        Some(cache["CMAKE_CXX_COMPILER"@])
    } else {
        None
    }
}

/// The toolchain that a cache was made with, whose compiler has the stem `stem`. With a
/// generator of Visual Studio the compiler is implicit, and the toolset and platform tell it.
pub open spec fn choice_of(cache: Map<Seq<char>, Seq<char>>, stem: Option<Seq<char>>) -> ChoiceView {
    if studio_cache(cache) {
        ChoiceView::ByIdArch {
            id: if contains_text(value_or_empty(cache, "CMAKE_GENERATOR_TOOLSET"@), "ClangCL"@) {
                "clang-cl"@
            } else {
                "msvc"@
            },
            arch: value_or_empty(cache, "CMAKE_GENERATOR_PLATFORM"@),
        }
    } else {
        match stem {
            Some(s) => ChoiceView::ByStem { stem: s },
            None => ChoiceView::Unknown,
        }
    }
}

/// A toolchain that is used through a generator of Visual Studio.
pub open spec fn studio_toolchain(tc: ToolchainView) -> bool {
    &&& tc.generator matches Some(g) && contains_text(g, "Visual Studio"@)
    &&& tc.arch is Some
    &&& {
        ||| tc.id == "clang-cl"@ && tc.toolset == Some("ClangCL"@)
        ||| tc.id == "msvc"@ && (tc.toolset is None || tc.toolset == Some("host=x86"@))
    }
}

/// Whether a cache holds the generator, platform and toolset of a toolchain.
pub open spec fn made_with(cache: Map<Seq<char>, Seq<char>>, tc: ToolchainView) -> bool {
    &&& cached(cache, "CMAKE_GENERATOR"@) == tc.generator
    &&& cached(cache, "CMAKE_GENERATOR_PLATFORM"@) == tc.arch
    &&& cached(cache, "CMAKE_GENERATOR_TOOLSET"@) == tc.toolset
}

/// The value of a key, where it is cached.
pub open spec fn cached(cache: Map<Seq<char>, Seq<char>>, key: Seq<char>) -> Option<Seq<char>> {
    if cache.contains_key(key) {
        Some(cache[key])
    } else {
        None
    }
}

/// The cache that a toolchain of Visual Studio leaves leads back to that toolchain's
/// identifier and architecture, and is not stale for it.
pub proof fn lemma_studio_choice(
    cache: Map<Seq<char>, Seq<char>>,
    tc: ToolchainView,
    stem: Option<Seq<char>>,
)
    requires
        studio_toolchain(tc),
        made_with(cache, tc),
    ensures
        choice_of(cache, stem) == (ChoiceView::ByIdArch { id: tc.id, arch: tc.arch->0 }),
        conflict_of(cache, tc) is None,
{
    let clang = "ClangCL"@;
    let toolset = value_or_empty(cache, "CMAKE_GENERATOR_TOOLSET"@);
    reveal_strlit("ClangCL");
    reveal_strlit("host=x86");
    if tc.toolset == Some("ClangCL"@) {
        assert(occurs_at(clang, clang, 0)) by {
            assert(clang.subrange(0, clang.len() as int) == clang);
        }
    } else if contains_text(toolset, clang) {
        let i = choose|i: int| occurs_at(toolset, clang, i);
        assert(toolset.subrange(i, i + 7)[0] == clang[0]);
        assert(toolset[i] == 'C');
    }
    reveal_strlit("msvc");
    reveal_strlit("clang-cl");
    assert("msvc"@.len() == 4 && "clang-cl"@.len() == 8);
}

/// What is known of the stem of the compiler that a cache names.
pub open spec fn cached_stem_outcome(
    cache: Map<Seq<char>, Seq<char>>,
    stem: Option<Seq<char>>,
) -> bool {
    match cached_compiler_of(cache) {
        Some(c) => stem_outcome(c, stem),
        None => stem is None,
    }
}

/// The build type that a cache was made with, in lower case.
pub fn cached_build_type(cache: &StringMap<String>) -> (r: Option<String>)
    requires
        cache.wf(),
    ensures
        opt_text(r) == cached_build_type_of(cache@),
{
    match cache.get("CMAKE_BUILD_TYPE") {
        Some(bt) => if bt.as_str().is_empty() {
            None
        } else {
            Some(to_lowercase(bt.as_str()))
        },
        None => None,
    }
}

/// The compiler that a cache names.
pub fn cached_compiler(cache: &StringMap<String>) -> (r: Option<String>)
    requires
        cache.wf(),
    ensures
        opt_text(r) == cached_compiler_of(cache@),
{
    match cache.get("CMAKE_C_COMPILER") {
        Some(c) => {
            if !c.as_str().is_empty() && !str_contains(c.as_str(), "NOTFOUND") {
                return Some(c.clone());
            }
        },
        None => {},
    }
    match cache.get("CMAKE_CXX_COMPILER") {
        Some(c) => Some(c.clone()),
        None => None,
    }
}

/// The value of a key, or the empty string.
fn get_or_empty(cache: &StringMap<String>, key: &str) -> (r: String)
    requires
        cache.wf(),
    ensures
        r@ == value_or_empty(cache@, key@),
{
    match cache.get(key) {
        Some(v) => v.clone(),
        None => String::new(),
    }
}

/// The toolchain that a cache was made with, whose compiler has the stem `stem`.
pub fn choice_with_stem(cache: &StringMap<String>, stem: Option<String>) -> (r: ToolchainChoice)
    requires
        cache.wf(),
    ensures
        r@ == choice_of(cache@, opt_text(stem)),
{
    if is_studio_cache(cache) {
        let toolset = get_or_empty(cache, "CMAKE_GENERATOR_TOOLSET");
        let arch = get_or_empty(cache, "CMAKE_GENERATOR_PLATFORM");
        let id = if str_contains(toolset.as_str(), "ClangCL") {
            "clang-cl".to_owned()
        } else {
            "msvc".to_owned()
        };
        ToolchainChoice::ByIdArch { id, arch }
    } else {
        match stem {
            Some(s) => ToolchainChoice::ByStem { stem: s },
            None => ToolchainChoice::Unknown,
        }
    }
}

/// The toolchain that a cache was made with.
pub fn restore_from_cache(cache: &StringMap<String>) -> (r: ToolchainChoice)
    requires
        cache.wf(),
    ensures
        exists|stem: Option<Seq<char>>| #[trigger]
            cached_stem_outcome(cache@, stem) && r@ == choice_of(cache@, stem),
        studio_cache(cache@) ==> r@ == choice_of(cache@, None),
{
    let stem = match cached_compiler(cache) {
        Some(c) => compiler_stem(c.as_str()),
        None => None,
    };
    let ghost s = opt_text(stem);
    let r = choice_with_stem(cache, stem);
    proof {
        assert(cached_stem_outcome(cache@, s));
    }
    r
}

/// What is known of the position `r` of the toolchain that a choice means.
pub open spec fn chosen_outcome(
    list: Seq<Toolchain>,
    choice: ChoiceView,
    r: Option<usize>,
) -> bool {
    match choice {
        ChoiceView::Unknown => r is None,
        ChoiceView::ByIdArch { id, arch } => is_first(
            r,
            list.len(),
            |k: int| list[k]@.id == id && (arch.len() == 0 || list[k]@.arch == Some(arch)),
        ),
        ChoiceView::ByStem { stem } => exists|stems: Seq<Option<Seq<char>>>| #[trigger]
            stems_outcome(list, stems) && is_first(r, list.len(), |k: int| stems[k] == Some(stem)),
    }
}

/// The position of the first toolchain of `list` that a choice means.
pub fn chosen_toolchain(list: &Vec<Toolchain>, choice: &ToolchainChoice) -> (r: Option<usize>)
    ensures
        chosen_outcome(list@, choice@, r),
{
    match choice {
        ToolchainChoice::Unknown => None,
        ToolchainChoice::ByIdArch { id, arch } => toolchain_with_id_arch(
            list,
            id.as_str(),
            arch.as_str(),
        ),
        ToolchainChoice::ByStem { stem } => toolchain_with_stem(list, stem.as_str()),
    }
}

} // verus!
