//! Laws on CMake's cache.
use vstd::prelude::*;

use crate::cache::{
    broken, cache_entry, cache_of, cache_of_lines, cached_build_type_of, cached_compiler_of, choice_of,
    conflict_of, lemma_cache_last_line_wins, studio_cache, writes, written, ChoiceView,
};
use crate::laws::output::{law_lines, single_lines};
use crate::laws::targets::lemma_first_is;
use crate::laws::text::{blank, law_trimmed, law_trimmed_part, part_at, tight};
use crate::platform::lowered;
use crate::text::{
    contains_text, first_at, lemma_first_at, lines_of, occurs_at, trimmed, white,
};
use crate::toolchain::ToolchainView;

verus! {

/// Whether a key is cached with another value than the one that is wanted.
pub open spec fn differs(
    cache: Map<Seq<char>, Seq<char>>,
    key: Seq<char>,
    wanted: Option<Seq<char>>,
) -> bool {
    wanted matches Some(w) && cache.contains_key(key) && cache[key] != w
}

/// A cache conflicts with a toolchain exactly where the toolchain names a generator, and the
/// generator, the platform or the toolset that is cached is another than the toolchain's.
pub proof fn law_conflict(cache: Map<Seq<char>, Seq<char>>, tc: ToolchainView)
    ensures
        conflict_of(cache, tc) is Some <==> tc.generator is Some && (differs(
            cache,
            "CMAKE_GENERATOR"@,
            tc.generator,
        ) || differs(cache, "CMAKE_GENERATOR_PLATFORM"@, tc.arch) || differs(
            cache,
            "CMAKE_GENERATOR_TOOLSET"@,
            tc.toolset,
        )),
{
}

/// Another generator than the cached one is always told, with what is cached and what is wanted.
/// Where the generator is the same, so is another platform, and where that is too, another
/// toolset.
pub proof fn law_conflict_told(cache: Map<Seq<char>, Seq<char>>, tc: ToolchainView)
    requires
        tc.generator is Some,
    ensures
        differs(cache, "CMAKE_GENERATOR"@, tc.generator) ==> conflict_of(cache, tc) == Some(
            "generator: "@ + cache["CMAKE_GENERATOR"@] + " -> "@ + tc.generator->0,
        ),
        !differs(cache, "CMAKE_GENERATOR"@, tc.generator) && differs(
            cache,
            "CMAKE_GENERATOR_PLATFORM"@,
            tc.arch,
        ) ==> conflict_of(cache, tc) == Some(
            "platform: "@ + cache["CMAKE_GENERATOR_PLATFORM"@] + " -> "@ + tc.arch->0,
        ),
        !differs(cache, "CMAKE_GENERATOR"@, tc.generator) && !differs(
            cache,
            "CMAKE_GENERATOR_PLATFORM"@,
            tc.arch,
        ) && differs(cache, "CMAKE_GENERATOR_TOOLSET"@, tc.toolset) ==> conflict_of(cache, tc)
            == Some("toolset: "@ + cache["CMAKE_GENERATOR_TOOLSET"@] + " -> "@ + tc.toolset->0),
{
}

/// Two toolchains with different generators: what one leaves in the cache conflicts with the
/// other.
pub proof fn law_conflict_between(
    cache: Map<Seq<char>, Seq<char>>,
    one: ToolchainView,
    other: ToolchainView,
)
    requires
        one.generator is Some,
        other.generator is Some,
        one.generator != other.generator,
        cache.contains_key("CMAKE_GENERATOR"@),
        cache["CMAKE_GENERATOR"@] == one.generator->0,
    ensures
        conflict_of(cache, other) is Some,
{
}

/// A cache is broken exactly where it says of a compiler, the linker or the archiver that it was
/// not found.
pub proof fn law_broken(cache: Map<Seq<char>, Seq<char>>)
    ensures
        broken(cache) <==> exists|key: Seq<char>|
            (key == "CMAKE_C_COMPILER"@ || key == "CMAKE_CXX_COMPILER"@ || key == "CMAKE_LINKER"@
                || key == "CMAKE_AR"@) && #[trigger] cache.contains_key(key) && contains_text(
                cache[key],
                "NOTFOUND"@,
            ),
{
    if broken(cache) {
        let n = "NOTFOUND"@;
        let c = "CMAKE_C_COMPILER"@;
        let x = "CMAKE_CXX_COMPILER"@;
        let l = "CMAKE_LINKER"@;
        let a = "CMAKE_AR"@;
        assert((cache.contains_key(c) && contains_text(cache[c], n)) || (cache.contains_key(x)
            && contains_text(cache[x], n)) || (cache.contains_key(l) && contains_text(cache[l], n))
            || (cache.contains_key(a) && contains_text(cache[a], n)));
    }
}

/// A line `key:type=value`, with white space around it or before the colon or without, writes
/// this value under this key. The value may be empty and may hold any characters, equals signs
/// and colons too.
pub proof fn law_line_writes(
    before: Seq<char>,
    key: Seq<char>,
    gap: Seq<char>,
    kind: Seq<char>,
    value: Seq<char>,
    after: Seq<char>,
)
    requires
        blank(before),
        blank(gap),
        blank(after),
        tight(key),
        !key.contains(':'),
        !key.contains('='),
        key[0] != '#',
        !kind.contains('='),
        value.len() == 0 || !white(value.last()),
    ensures
        cache_entry(before + (key + gap + ":"@ + kind + "="@ + value) + after) == Some((key, value)),
{
    reveal_strlit(":");
    reveal_strlit("=");
    reveal_strlit("#");
    assert(":"@ =~= seq![':']);
    assert("="@ =~= seq!['=']);
    assert("#"@ =~= seq!['#']);
    let l = key + gap + ":"@ + kind + "="@ + value;
    assert(l[0] == key[0]);
    assert(l.last() == if value.len() == 0 {
        '='
    } else {
        value.last()
    });
    law_trimmed(before, l, after);
    assert(!"#"@.is_prefix_of(l)) by {
        if "#"@.is_prefix_of(l) {
            assert(l.subrange(0, 1)[0] == '#');
        }
    }
    let colon = (key.len() + gap.len()) as int;
    let eq = colon + 1 + kind.len();
    assert(l.subrange(eq, eq + 1) =~= "="@);
    assert forall|k: int| 0 <= k < eq implies !#[trigger] occurs_at(l, "="@, k) by {
        if occurs_at(l, "="@, k) {
            assert(l.subrange(k, k + 1)[0] == '=');
            if k < key.len() {
                assert(key[k] == '=');
            } else if k < colon {
                assert(white(gap[k - key.len()]));
            } else if k > colon {
                assert(kind[k - colon - 1] == '=');
            }
        }
    }
    lemma_first_is(l, "="@, eq);
    let head = l.take(eq);
    assert(head.subrange(colon, colon + 1) =~= ":"@);
    assert forall|k: int| 0 <= k < colon implies !#[trigger] occurs_at(head, ":"@, k) by {
        if occurs_at(head, ":"@, k) {
            assert(head.subrange(k, k + 1)[0] == ':');
            if k < key.len() {
                assert(key[k] == ':');
            } else {
                assert(white(gap[k - key.len()]));
            }
        }
    }
    lemma_first_is(head, ":"@, colon);
    let none = Seq::<char>::empty();
    assert(head.take(colon) =~= none + key + gap);
    law_trimmed(none, key, gap);
    assert(l.skip(eq + 1) =~= value);
}

/// A comment writes nothing, and neither does a line without an equals sign or a colon.
pub proof fn law_line_writes_nothing(line: Seq<char>)
    requires
        ({
            ||| trimmed(line).len() == 0
            ||| trimmed(line)[0] == '#'
            ||| !line.contains('=')
            ||| !line.contains(':')
        }),
    ensures
        cache_entry(line) is None,
{
    reveal_strlit(":");
    reveal_strlit("=");
    reveal_strlit("#");
    assert(":"@ =~= seq![':']);
    assert("="@ =~= seq!['=']);
    assert("#"@ =~= seq!['#']);
    let l = trimmed(line);
    law_trimmed_part(line);
    let a = choose|a: int| #[trigger] part_at(line, l, a);
    if l.len() > 0 && l[0] == '#' {
        assert(l.subrange(0, 1) =~= "#"@);
    }
    lemma_first_at(l, "="@);
    if first_at(l, "="@) is Some {
        let eq = first_at(l, "="@)->0;
        assert(l.subrange(eq, eq + 1)[0] == '=');
        assert(line[a + eq] == '=');
        let head = l.take(eq);
        lemma_first_at(head, ":"@);
        if first_at(head, ":"@) is Some {
            let c = first_at(head, ":"@)->0;
            assert(head.subrange(c, c + 1)[0] == ':');
            assert(line[a + c] == ':');
        }
    }
}

/// What the last line on a key writes is read, whatever stands before it and on other keys
/// behind it.
pub proof fn law_cache_reads_back(
    above: Seq<Seq<char>>,
    key: Seq<char>,
    kind: Seq<char>,
    value: Seq<char>,
    below: Seq<Seq<char>>,
)
    requires
        tight(key),
        !key.contains(':'),
        !key.contains('='),
        key[0] != '#',
        !kind.contains('='),
        value.len() == 0 || !white(value.last()),
        forall|i: int|
            0 <= i < below.len() ==> (cache_entry(#[trigger] below[i]) matches Some((k, _)) ==> k
                != key),
    ensures
        ({
            let cache = cache_of_lines(
                above.push(key + ":"@ + kind + "="@ + value) + below,
            );
            cache.contains_key(key) && cache[key] == value
        }),
{
    let line = key + ":"@ + kind + "="@ + value;
    let none = Seq::<char>::empty();
    law_line_writes(none, key, none, kind, value, none);
    assert(none + (key + none + ":"@ + kind + "="@ + value) + none =~= line);
    let ls = above.push(line) + below;
    let i = above.len() as int;
    assert(ls[i] == line);
    assert(writes(ls[i], key));
    assert forall|j: int| i < j < ls.len() implies !writes(#[trigger] ls[j], key) by {
        assert(ls[j] == below[j - i - 1]);
    }
    lemma_cache_last_line_wins(ls, key);
    assert(written(ls[i]) == value);
}

/// What is read was written: a key and its value stand in one and the same line.
pub proof fn law_cache_adds_nothing(ls: Seq<Seq<char>>, key: Seq<char>)
    requires
        cache_of_lines(ls).contains_key(key),
    ensures
        exists|i: int|
            {
                &&& 0 <= i < ls.len()
                &&& contains_text(#[trigger] ls[i], key)
                &&& contains_text(ls[i], "="@ + cache_of_lines(ls)[key])
                &&& trimmed(ls[i])[0] != '#'
            },
    decreases ls.len(),
{
    let init = ls.drop_last();
    let value = cache_of_lines(ls)[key];
    if ls.len() > 0 {
        let last = ls[ls.len() - 1];
        if writes(last, key) {
            reveal_strlit("=");
            reveal_strlit(":");
            reveal_strlit("#");
            let l = trimmed(last);
            law_trimmed_part(last);
            let a = choose|a: int| #[trigger] part_at(last, l, a);
            lemma_first_at(l, "="@);
            let eq = first_at(l, "="@)->0;
            let head = l.take(eq);
            lemma_first_at(head, ":"@);
            let colon = first_at(head, ":"@)->0;
            let raw = head.take(colon);
            law_trimmed_part(raw);
            let b = choose|b: int| #[trigger] part_at(raw, key, b);
            assert forall|k: int| 0 <= k < key.len() implies last[a + b + k] == key[k] by {
                assert(key[k] == raw[b + k]);
                assert(raw[b + k] == l[b + k]);
            }
            assert(last.subrange(a + b, a + b + key.len()) =~= key);
            assert(occurs_at(last, key, a + b));
            let told = "="@ + value;
            assert(l.subrange(eq, eq + 1)[0] == '=');
            assert forall|k: int| 0 <= k < told.len() implies last[a + eq + k] == told[k] by {
                assert(l[eq + k] == told[k]);
            }
            assert(last.subrange(a + eq, a + eq + told.len()) =~= told);
            assert(occurs_at(last, told, a + eq));
            if l[0] == '#' {
                assert(l.subrange(0, 1) =~= "#"@);
            }
            assert(contains_text(ls[ls.len() - 1], key));
        } else {
            law_cache_adds_nothing(init, key);
            let i = choose|i: int|
                {
                    &&& 0 <= i < init.len()
                    &&& contains_text(#[trigger] init[i], key)
                    &&& contains_text(init[i], "="@ + cache_of_lines(init)[key])
                    &&& trimmed(init[i])[0] != '#'
                };
            assert(ls[i] == init[i]);
        }
    }
}

/// A cache is read from all of its text: every line of it counts, the first and the last too.
pub proof fn law_cache_text(lines: Seq<Seq<char>>, rest: Seq<char>)
    requires
        single_lines(lines),
        forall|i: int|
            0 <= i < lines.len() ==> (#[trigger] lines[i]).len() == 0 || lines[i].last() != '\r',
        !rest.contains('\n'),
    ensures
        rest.len() == 0 ==> cache_of(crate::laws::output::written(lines) + rest) == cache_of_lines(
            lines,
        ),
        rest.len() > 0 ==> cache_of(crate::laws::output::written(lines) + rest) == cache_of_lines(
            lines.push(rest),
        ),
{
    law_lines(lines, rest);
    let read = lines_of(crate::laws::output::written(lines) + rest);
    assert forall|i: int| 0 <= i < lines.len() implies read[i] == lines[i] by {
        assert(lines[i].len() == 0 || lines[i].last() != '\r');
    }
    if rest.len() > 0 {
        assert(read =~= lines.push(rest));
    } else {
        assert(read =~= lines);
    }
}

/// The build type that is cached is taken in lower case, unless it is empty.
pub proof fn law_cached_build_type(cache: Map<Seq<char>, Seq<char>>)
    ensures
        cached_build_type_of(cache) is Some <==> cache.contains_key("CMAKE_BUILD_TYPE"@)
            && cache["CMAKE_BUILD_TYPE"@] != Seq::<char>::empty(),
        cached_build_type_of(cache) matches Some(t) ==> t == lowered(cache["CMAKE_BUILD_TYPE"@]),
{
    if cache.contains_key("CMAKE_BUILD_TYPE"@) && cache["CMAKE_BUILD_TYPE"@].len() == 0 {
        assert(cache["CMAKE_BUILD_TYPE"@] =~= Seq::<char>::empty());
    }
}

/// The C compiler that is cached is taken where it was found, and the C++ compiler where not.
pub proof fn law_cached_compiler(cache: Map<Seq<char>, Seq<char>>, c: Seq<char>, cxx: Seq<char>)
    requires
        cache.contains_key("CMAKE_CXX_COMPILER"@),
        cache["CMAKE_CXX_COMPILER"@] == cxx,
    ensures
        cache.contains_key("CMAKE_C_COMPILER"@) && cache["CMAKE_C_COMPILER"@] == c && c.len() > 0
            && !contains_text(c, "NOTFOUND"@) ==> cached_compiler_of(cache) == Some(c),
        cache.contains_key("CMAKE_C_COMPILER"@) && contains_text(
            cache["CMAKE_C_COMPILER"@],
            "NOTFOUND"@,
        ) ==> cached_compiler_of(cache) == Some(cxx),
        !cache.contains_key("CMAKE_C_COMPILER"@) ==> cached_compiler_of(cache) == Some(cxx),
{
}

/// A cache of Visual Studio leads to MSVC or, with its toolset, to Clang's driver for its
/// options; any other leads to the compiler that it names.
pub proof fn law_choice(cache: Map<Seq<char>, Seq<char>>, stem: Option<Seq<char>>)
    ensures
        cache.contains_key("CMAKE_GENERATOR"@) && contains_text(
            cache["CMAKE_GENERATOR"@],
            "Visual Studio"@,
        ) <==> choice_of(cache, stem) is ByIdArch,
        choice_of(cache, stem) matches ChoiceView::ByIdArch { id, arch } ==> {
            &&& id == "clang-cl"@ || id == "msvc"@
            &&& id == "clang-cl"@ <==> cache.contains_key("CMAKE_GENERATOR_TOOLSET"@)
                && contains_text(cache["CMAKE_GENERATOR_TOOLSET"@], "ClangCL"@)
            &&& cache.contains_key("CMAKE_GENERATOR_PLATFORM"@) ==> arch
                == cache["CMAKE_GENERATOR_PLATFORM"@]
            &&& !cache.contains_key("CMAKE_GENERATOR_PLATFORM"@) ==> arch == Seq::<char>::empty()
        },
        choice_of(cache, stem) matches ChoiceView::ByStem { stem: s } ==> stem == Some(s),
        choice_of(cache, stem) is Unknown ==> stem is None,
{
    reveal_strlit("clang-cl");
    reveal_strlit("msvc");
    reveal_strlit("ClangCL");
    assert("clang-cl"@.len() == 8 && "msvc"@.len() == 4 && "ClangCL"@.len() == 7);
    assert(!contains_text(Seq::<char>::empty(), "ClangCL"@));
    assert(studio_cache(cache) == (choice_of(cache, stem) is ByIdArch));
}

} // verus!
