//! Compilers by their file names and by what they print.
use vstd::prelude::*;

use crate::platform::{decoded, from_utf8_lossy, lowered, string_of, to_lowercase};
use crate::text::{
    contains, contains_text, ends_with, equal, first_some, lines_of, opt_text, replace_first,
    starts_with, to_chars, trim_end_text, with_first_replaced, without_suffixes,
};
use crate::version::{
    clang_line_version, clang_version, gcc_line_version, gcc_version, line_target, target_triple,
};

verus! {

/// The families of compilers that are recognised by their file names.
#[derive(Clone, Copy, Debug, PartialEq, Eq, Structural)]
pub enum Vendor {
    Gcc,
    Clang,
    ClangCl,
}

/// The compiler with this stem in lower case.
pub open spec fn kind_of_stem(stem: Seq<char>) -> Option<Vendor> {
    if stem == "clang-cl"@ || "clang-cl-"@.is_prefix_of(stem) {
        Some(Vendor::ClangCl)
    } else if stem == "clang"@ || "clang-"@.is_prefix_of(stem) {
        Some(Vendor::Clang)
    } else if stem == "gcc"@ || "gcc-"@.is_prefix_of(stem) || "-gcc"@.is_suffix_of(stem)
        || contains_text(stem, "-gcc-"@) {
        Some(Vendor::Gcc)
    } else {
        None
    }
}

/// The compiler with this stem in lower case.
pub fn stem_kind(stem: &str) -> (r: Option<Vendor>)
    ensures
        r == kind_of_stem(stem@),
{
    let chars = to_chars(stem);
    let s: &[char] = chars.as_slice();
    if equal(stem, "clang-cl") || starts_with(s, "clang-cl-") {
        return Some(Vendor::ClangCl);
    }
    if equal(stem, "clang") || starts_with(s, "clang-") {
        return Some(Vendor::Clang);
    }
    if equal(stem, "gcc") || starts_with(s, "gcc-") || ends_with(s, "-gcc") || contains(s, "-gcc-") {
        return Some(Vendor::Gcc);
    }
    None
}

/// The compiler with this file name: `.exe` is dropped as it stands, the rest compared in
/// lower case.
pub fn compiler_kind(fname: &str) -> (r: Option<Vendor>)
    ensures
        r == kind_of_stem(lowered(without_suffixes(fname@, ".exe"@))),
{
    proof {
        reveal_strlit(".exe");
    }
    let stem = string_of(trim_end_text(to_chars(fname).as_slice(), ".exe"));
    stem_kind(to_lowercase(stem.as_str()).as_str())
}

/// What a compiler prints: its standard output, a line feed, and its standard error.
pub open spec fn command_text_of(stdout: Seq<u8>, stderr: Seq<u8>) -> Seq<char> {
    decoded(stdout) + "\n"@ + decoded(stderr)
}

/// What a program printed on both of its outputs.
pub fn command_text(stdout: &[u8], stderr: &[u8]) -> (r: String)
    ensures
        r@ == command_text_of(stdout@, stderr@),
{
    let mut out = from_utf8_lossy(stdout);
    out.append("\n");
    out.append(from_utf8_lossy(stderr).as_str());
    out
}

/// The version that a compiler's output names.
pub open spec fn vendor_version(vendor: Vendor, text: Seq<char>) -> Option<Seq<char>> {
    match vendor {
        Vendor::Gcc => first_some(lines_of(text), |l: Seq<char>| gcc_line_version(l)),
        Vendor::Clang => first_some(lines_of(text), |l: Seq<char>| clang_line_version(l)),
        Vendor::ClangCl => first_some(lines_of(text), |l: Seq<char>| clang_line_version(l)),
    }
}

/// The target that a compiler's output names.
pub open spec fn target_in(text: Seq<char>) -> Option<Seq<char>> {
    first_some(lines_of(text), |l: Seq<char>| line_target(l))
}

/// The version, and the target where it names one, that a compiler's output names. Without
/// a version it is no output of that compiler.
pub fn detect_compiler(vendor: Vendor, text: &str) -> (r: Option<(String, Option<String>)>)
    ensures
        match r {
            Some((version, triple)) => vendor_version(vendor, text@) == Some(version@) && opt_text(
                triple,
            ) == target_in(text@),
            None => vendor_version(vendor, text@) is None,
        },
{
    let version = match vendor {
        Vendor::Gcc => gcc_version(text),
        Vendor::Clang => clang_version(text),
        Vendor::ClangCl => clang_version(text),
    };
    match version {
        Some(v) => Some((v, target_triple(text))),
        None => None,
    }
}

/// The file name of the compiler beside `fname` whose name has `to` for the first `from`.
/// There is none where that changes nothing.
pub open spec fn sibling_of(fname: Seq<char>, from: Seq<char>, to: Seq<char>) -> Option<Seq<char>> {
    let renamed = with_first_replaced(fname, from, to);
    if renamed == fname {
        None
    } else {
        Some(renamed)
    }
}

/// The file name of the compiler beside `fname` whose name has `to` for the first `from`.
pub fn sibling_compiler(fname: &str, from: &str, to: &str) -> (r: Option<String>)
    ensures
        opt_text(r) == sibling_of(fname@, from@, to@),
{
    let renamed = replace_first(fname, from, to);
    if equal(renamed.as_str(), fname) {
        None
    } else {
        Some(renamed)
    }
}

/// The file name of the C++ compiler that goes with the C compiler `fname`. Clang's driver
/// for the options of MSVC is its own C++ compiler.
pub open spec fn cxx_sibling_of(vendor: Vendor, fname: Seq<char>) -> Option<Seq<char>> {
    match vendor {
        Vendor::Gcc => sibling_of(fname, "gcc"@, "g++"@),
        Vendor::Clang => sibling_of(fname, "clang"@, "clang++"@),
        Vendor::ClangCl => None,
    }
}

/// The file name of the C++ compiler that is to lie beside the C compiler `fname`.
pub fn cxx_sibling(vendor: Vendor, fname: &str) -> (r: Option<String>)
    ensures
        opt_text(r) == cxx_sibling_of(vendor, fname@),
{
    match vendor {
        Vendor::Gcc => sibling_compiler(fname, "gcc", "g++"),
        Vendor::Clang => sibling_compiler(fname, "clang", "clang++"),
        Vendor::ClangCl => None,
    }
}

} // verus!
