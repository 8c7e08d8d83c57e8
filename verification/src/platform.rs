//! What the library takes from the standard library and from other crates unproved: strings
//! from characters, letter case, lossy decoding, paths, the clock, the user's
//! configuration directory and base64.
use base64::Engine;
use vstd::prelude::*;
use vstd::string::StringSliceAdditionalSpecFns;
use vstd::utf8::{decode_utf8, is_ascii_chars, valid_utf8};

use crate::text::{
    lemma_split_nonempty, lemma_tail, lemma_tail_unique, opt_text, split_on, with_char_replaced,
};

verus! {

// ---------------------------------------------------------------------------
// Strings, letter case and decoding
// ---------------------------------------------------------------------------

/// `String::from_iter` over characters: the string that holds exactly these characters
/// in this order.
#[verifier::external_body]
pub(crate) fn string_of(chars: &[char]) -> (r: String)
    ensures
        r@ == chars@,
{
    String::from_iter(chars)
}

/// The lower-case form of a text with characters beyond ASCII, by the Unicode tables.
pub uninterp spec fn lowercase(s: Seq<char>) -> Seq<char>;

/// The lower-case form of an ASCII character.
pub open spec fn ascii_lower(c: char) -> char {
    if 'A' <= c <= 'Z' {
        (c as u32 + 32) as char
    } else {
        c
    }
}

/// The lower-case form of a text. Where all its characters are ASCII, `A` to `Z` become `a`
/// to `z` and the rest stays.
pub open spec fn lowered(s: Seq<char>) -> Seq<char> {
    if is_ascii_chars(s) {
        s.map_values(|c: char| ascii_lower(c))
    } else {
        lowercase(s)
    }
}

/// `str::to_lowercase`: its result depends on the text alone. On a text of ASCII characters
/// it maps `A` to `Z` to `a` to `z` and keeps the rest.
#[verifier::external_body]
pub(crate) fn to_lowercase(s: &str) -> (r: String)
    ensures
        r@ == lowered(s@),
        !is_ascii_chars(s@) ==> r@ == lowercase(s@),
{
    s.to_lowercase()
}

/// The text that bytes which are not valid UTF-8 stand for, with replacement characters.
pub uninterp spec fn lossy(bytes: Seq<u8>) -> Seq<char>;

/// The text that bytes stand for: the characters that they encode where they are valid
/// UTF-8.
pub open spec fn decoded(bytes: Seq<u8>) -> Seq<char> {
    if valid_utf8(bytes) {
        decode_utf8(bytes)
    } else {
        lossy(bytes)
    }
}

/// `String::from_utf8_lossy`: its result depends on the bytes alone. Bytes that are valid
/// UTF-8 give the characters that they encode.
#[verifier::external_body]
pub(crate) fn from_utf8_lossy(bytes: &[u8]) -> (r: String)
    ensures
        r@ == decoded(bytes@),
        !valid_utf8(bytes@) ==> r@ == lossy(bytes@),
{
    String::from_utf8_lossy(bytes).into_owned()
}

// ---------------------------------------------------------------------------
// Paths
// ---------------------------------------------------------------------------

/// The characters that separate the components of a path on some platform.
pub open spec fn separator(c: char) -> bool {
    c == '/' || c == '\\'
}

/// A text that is one ordinary component of a path on every platform.
pub open spec fn plain_name(n: Seq<char>) -> bool {
    &&& n.len() > 0
    &&& forall|i: int| 0 <= i < n.len() ==> !separator(#[trigger] n[i]) && n[i] != ':'
    &&& n != seq!['.']
    &&& n != seq!['.', '.']
}

/// A letter that can name a drive.
pub open spec fn drive_letter(c: char) -> bool {
    'A' <= c <= 'Z' || 'a' <= c <= 'z'
}

/// A path that starts with two separators, which Windows reads as that of a server or a device.
pub open spec fn remote_path(p: Seq<char>) -> bool {
    p.len() >= 2 && separator(p[0]) && separator(p[1])
}

/// A path that Windows may read as verbatim: a question mark follows its two separators.
pub open spec fn verbatim_path(p: Seq<char>) -> bool {
    remote_path(p) && p.len() >= 3 && p[2] == '?'
}

/// A path that is not one of a server or a device, and has no colon in its second place but
/// after the letter of a drive.
pub open spec fn local_path(p: Seq<char>) -> bool {
    &&& !remote_path(p)
    &&& p.len() >= 2 && p[1] == ':' ==> drive_letter(p[0])
}

/// A path with slashes for all its separators. Windows separates by backslashes too.
pub open spec fn slashed(p: Seq<char>, windows: bool) -> Seq<char> {
    if windows {
        with_char_replaced(p, '\\', '/')
    } else {
        p
    }
}

/// A path without its drive. Only Windows knows drives.
pub open spec fn without_drive(p: Seq<char>, windows: bool) -> Seq<char> {
    if windows && p.len() >= 2 && p[1] == ':' {
        p.skip(2)
    } else {
        p
    }
}

/// What stands after the last separator of a path.
pub open spec fn tail_name(p: Seq<char>, windows: bool) -> Seq<char> {
    split_on(slashed(p, windows), '/').last()
}

/// Says of a piece between separators whether it is a component: empty ones and single dots
/// are none.
pub open spec fn component() -> spec_fn(Seq<char>) -> bool {
    |c: Seq<char>| c.len() > 0 && c != seq!['.']
}

/// The components of a path after its drive.
pub open spec fn parts_of(p: Seq<char>, windows: bool) -> Seq<Seq<char>> {
    split_on(slashed(without_drive(p, windows), windows), '/').filter(component())
}

/// A path whose last `n` components lie on the same volume on every platform: a local path, or
/// one of a server or a device, not verbatim, with two components before them, which can be
/// those of the server and of what it shares.
pub open spec fn readable_path(p: Seq<char>, n: nat) -> bool {
    local_path(p) || (remote_path(p) && !verbatim_path(p) && parts_of(p, true).len() >= n + 2)
}

/// The name at the end of a path: its last component, unless that leads to the directory
/// above.
pub open spec fn final_name(p: Seq<char>, windows: bool) -> Option<Seq<char>> {
    let parts = parts_of(p, windows);
    if parts.len() == 0 || parts.last() == seq!['.', '.'] {
        None
    } else {
        Some(parts.last())
    }
}

/// What is known of the final component `r` of the path `p`: it is the one on Windows or the
/// one elsewhere.
pub open spec fn file_name_outcome(p: Seq<char>, r: Option<Seq<char>>) -> bool {
    readable_path(p, 1) ==> r == final_name(p, false) || r == final_name(p, true)
}

/// `Path::file_name` as text: the last component, and nothing where there is none or it is
/// `..`. Repeated separators, those at the end, and components `.` do not count. Which
/// characters separate, and whether there are drives, the platform says. Nothing is stated of
/// verbatim paths, nor of those that name no more than a server and what it shares.
#[verifier::external_body]
pub(crate) fn path_file_name(path: &str) -> (r: Option<String>)
    ensures
        file_name_outcome(path@, opt_text(r)),
{
    std::path::Path::new(path).file_name().map(|n| n.to_string_lossy().into_owned())
}

/// A component that names an entry of a directory.
pub open spec fn ordinary(n: Seq<char>, windows: bool) -> bool {
    &&& n.len() > 0
    &&& n != seq!['.']
    &&& n != seq!['.', '.']
    &&& windows ==> !n.contains(':')
}

/// What stands before the root of a path: nothing, or a drive on Windows.
pub open spec fn root_start(p: Seq<char>, windows: bool) -> bool {
    p.len() == 0 || (windows && p.len() == 2 && p[1] == ':')
}

/// The path around the last component of a path, where it can be read off: the last component
/// is ordinary, and so is the one before it, or the root stands before it, or nothing.
pub open spec fn plain_parent(p: Seq<char>, windows: bool) -> Option<Seq<char>> {
    let name = tail_name(p, windows);
    let dir = p.take(p.len() - name.len() - 1);
    if !ordinary(name, windows) {
        None
    } else if name.len() == p.len() {
        Some(Seq::<char>::empty())
    } else if ordinary(tail_name(dir, windows), windows) {
        Some(dir)
    } else if root_start(dir, windows) {
        Some(p.take(p.len() - name.len()))
    } else {
        None
    }
}

/// What is known of the path `r` around the last component of the path `p`: it is the one on
/// Windows or the one elsewhere, where both can be read off. The empty path has none.
pub open spec fn parent_outcome(p: Seq<char>, r: Option<Seq<char>>) -> bool {
    &&& p.len() == 0 ==> r is None
    &&& readable_path(p, 2) && plain_parent(p, false) is Some && plain_parent(p, true) is Some ==> {
        ||| r == plain_parent(p, false)
        ||| r == plain_parent(p, true)
    }
}

/// `Path::parent` as text: the path without its last component and the separator before it,
/// unless that is the root's. It is empty for a single component, and there is none for the
/// empty path. Which characters separate, and whether there are drives, the platform says.
/// Nothing is stated of verbatim paths, nor of those whose last components are not ordinary.
#[verifier::external_body]
pub(crate) fn path_parent(path: &str) -> (r: Option<String>)
    ensures
        parent_outcome(path@, opt_text(r)),
{
    std::path::Path::new(path).parent().map(|p| p.to_string_lossy().into_owned())
}

/// A name after the last slash that is ordinary on every platform is the final component on
/// every platform, and `..` there means that there is none.
pub proof fn lemma_file_name(p: Seq<char>, r: Option<Seq<char>>)
    requires
        readable_path(p, 1),
        file_name_outcome(p, r),
    ensures
        plain_name(tail_name(p, false)) ==> r == Some(tail_name(p, false)),
        tail_name(p, false) == seq!['.', '.'] ==> r is None,
{
    let t = tail_name(p, false);
    if plain_name(t) || t == seq!['.', '.'] {
        lemma_tail(p, '/');
        let q = without_drive(p, true);
        if q != p {
            assert(q.len() >= t.len()) by {
                if q.len() < t.len() {
                    assert(p[1] == t[1 - (p.len() - t.len())]);
                }
            }
        }
        let s = slashed(q, true);
        assert(s.skip(s.len() - t.len()) =~= t) by {
            assert forall|i: int| 0 <= i < t.len() implies s[s.len() - t.len() + i] == t[i] by {
                assert(p.skip(p.len() - t.len())[i] == t[i]);
            }
        }
        lemma_tail_unique(s, '/', t);
        lemma_last_part(p, t);
        lemma_last_part(s, t);
    }
}

/// The path around the last component starts the path, and is verbatim only where that is.
pub proof fn lemma_parent_starts(p: Seq<char>, windows: bool)
    ensures
        plain_parent(p, windows) matches Some(d) ==> d.is_prefix_of(p) && (verbatim_path(d)
            ==> verbatim_path(p)),
{
    lemma_tail(slashed(p, windows), '/');
    match plain_parent(p, windows) {
        Some(d) => {
            assert(d.len() <= p.len());
            assert(p.subrange(0, d.len() as int) =~= d);
        },
        None => {},
    }
}

/// Where the last piece between slashes is a component, it is the last component.
pub proof fn lemma_last_part(s: Seq<char>, t: Seq<char>)
    requires
        split_on(s, '/').last() == t,
        t.len() > 0,
        t != seq!['.'],
    ensures
        split_on(s, '/').filter(component()).len() > 0,
        split_on(s, '/').filter(component()).last() == t,
{
    lemma_split_nonempty(s, '/');
    reveal(Seq::filter);
}

/// A path that ends in the entry `name` of a directory whose path ends in `dir`.
pub open spec fn lies_in(dir: Seq<char>, name: Seq<char>, r: Seq<char>) -> bool {
    ||| (dir + seq!['/'] + name).is_suffix_of(r)
    ||| (dir + seq!['\\'] + name).is_suffix_of(r)
}

/// What is known of the path `r` to `name` in the directory `dir` whatever the platform.
pub open spec fn join_outcome(dir: Seq<char>, name: Seq<char>, r: Seq<char>) -> bool {
    plain_name(name) ==> {
        &&& name.is_suffix_of(r)
        &&& forall|m: Seq<char>|
            plain_name(m) && #[trigger] m.is_suffix_of(dir) ==> lies_in(m, name, r)
        &&& !verbatim_path(dir) ==> {
            &&& r == dir + name || r == dir + seq!['/'] + name || r == dir + seq!['\\'] + name
            &&& dir.len() == 0 || dir.last() == '/' ==> r == dir + name
            &&& dir.len() > 0 && !separator(dir.last()) && dir.last() != ':' ==> r != dir + name
        }
    }
}

/// `Path::join` as text, with a name that is one ordinary component: the directory, the
/// platform's separator where one is needed, and the name. Windows rewrites the components of a
/// verbatim directory; of those it is stated that the result ends in the name, after a separator
/// and the end of the directory where that is part of an ordinary component. Nothing is stated
/// of other names.
#[verifier::external_body]
pub(crate) fn path_join(dir: &str, name: &str) -> (r: String)
    ensures
        join_outcome(dir@, name@, r@),
{
    std::path::Path::new(dir).join(name).to_string_lossy().into_owned()
}

// ---------------------------------------------------------------------------
// The host
// ---------------------------------------------------------------------------

/// `SystemTime::elapsed` on the Unix epoch, in whole seconds. There is none where the clock
/// stands before the epoch. Nothing is stated of the time.
#[verifier::external_body]
pub(crate) fn epoch_seconds() -> (r: Option<u64>) {
    std::time::UNIX_EPOCH.elapsed().ok().map(|d| d.as_secs())
}

/// `dirs::config_dir` as text: the directory for the user's configuration files, where the
/// host has one. It is read from the environment, so nothing is stated of it.
#[verifier::external_body]
pub(crate) fn user_config_dir() -> (r: Option<String>) {
    dirs::config_dir().map(|p| p.to_string_lossy().into_owned())
}

// ---------------------------------------------------------------------------
// Base64
// ---------------------------------------------------------------------------

/// The character of a number below sixty-four in the standard alphabet of base64.
pub open spec fn base64_char(n: int) -> char {
    if n < 26 {
        ('A' as int + n) as char
    } else if n < 52 {
        ('a' as int + (n - 26)) as char
    } else if n < 62 {
        ('0' as int + (n - 52)) as char
    } else if n == 62 {
        '+'
    } else {
        '/'
    }
}

/// The base64 notation of three bytes: the four parts of six bits each.
pub open spec fn base64_group(a: u8, b: u8, c: u8) -> Seq<char> {
    let n = a as int * 65536 + b as int * 256 + c as int;
    seq![
        base64_char(n / 262144),
        base64_char(n / 4096 % 64),
        base64_char(n / 64 % 64),
        base64_char(n % 64),
    ]
}

/// The base64 notation of bytes, with the standard alphabet: group by group of three. One or
/// two bytes at the end stand for a group with zeros, of which two or three characters are kept
/// and filled up with `=`.
pub open spec fn base64_text(bytes: Seq<u8>) -> Seq<char>
    decreases bytes.len(),
{
    if bytes.len() == 0 {
        Seq::<char>::empty()
    } else if bytes.len() == 1 {
        base64_group(bytes[0], 0, 0).take(2) + seq!['=', '=']
    } else if bytes.len() == 2 {
        base64_group(bytes[0], bytes[1], 0).take(3) + seq!['=']
    } else {
        base64_group(bytes[0], bytes[1], bytes[2]) + base64_text(bytes.skip(3))
    }
}

/// The characters that base64 notation consists of.
pub open spec fn in_base64(c: char) -> bool {
    'A' <= c <= 'Z' || 'a' <= c <= 'z' || '0' <= c <= '9' || c == '+' || c == '/' || c == '='
}

/// The base64 notation has four characters for every three bytes begun, and consists of
/// letters, digits, `+`, `/` and the padding `=`.
pub proof fn lemma_base64_text(bytes: Seq<u8>)
    ensures
        base64_text(bytes).len() == (bytes.len() + 2) / 3 * 4,
        forall|i: int| 0 <= i < base64_text(bytes).len() ==> in_base64(#[trigger] base64_text(bytes)[i]),
    decreases bytes.len(),
{
    if bytes.len() >= 3 {
        lemma_base64_text(bytes.skip(3));
        let group = base64_group(bytes[0], bytes[1], bytes[2]);
        let rest = base64_text(bytes.skip(3));
        lemma_base64_group(bytes[0], bytes[1], bytes[2]);
        assert forall|i: int| 0 <= i < base64_text(bytes).len() implies in_base64(
            #[trigger] base64_text(bytes)[i],
        ) by {
            if i < 4 {
                assert(base64_text(bytes)[i] == group[i]);
            } else {
                assert(base64_text(bytes)[i] == rest[i - 4]);
            }
        }
    } else if bytes.len() == 2 {
        lemma_base64_group(bytes[0], bytes[1], 0);
    } else if bytes.len() == 1 {
        lemma_base64_group(bytes[0], 0, 0);
    }
}

/// What the notation of three bytes consists of.
proof fn lemma_base64_group(a: u8, b: u8, c: u8)
    ensures
        forall|i: int| 0 <= i < 4 ==> in_base64(#[trigger] base64_group(a, b, c)[i]),
{
    let n = a as int * 65536 + b as int * 256 + c as int;
    assert(0 <= n < 16777216);
    assert(0 <= n / 262144 < 64);
}

/// `Engine::encode` of the engine `STANDARD` of the crate `base64`: the base64 notation of the
/// text's bytes, with the standard alphabet and padding.
#[verifier::external_body]
pub(crate) fn base64_encode(text: &str) -> (r: String)
    requires
        text.spec_bytes().len() <= isize::MAX / 2,
    ensures
        r@ == base64_text(text.spec_bytes()),
{
    base64::engine::general_purpose::STANDARD.encode(text)
}

} // verus!
