//! Visual Studio: installations, generators, and the names of its hosts and targets.
use vstd::prelude::*;
use vstd::slice::slice_subrange;

use crate::number::{all_digits, decimal, only_digits, parse, parsed, to_decimal, unsigned_part, value_of};
use crate::platform::{
    file_name_outcome, lowered, parent_outcome, path_file_name, path_parent, string_of, to_lowercase,
};
use crate::text::{
    after_prefix, contains_text, equal, opt_text, split, split_on,
    str_contains, strip_prefix, texts, to_chars,
};

verus! {

// ---------------------------------------------------------------------------
// Hosts and targets
// ---------------------------------------------------------------------------

/// The name that Visual Studio's prompts give an architecture.
pub open spec fn arch_label_of(a: Seq<char>) -> Seq<char> {
    if a == "x64"@ {
        "amd64"@
    } else {
        a
    }
}

/// The name of the architecture of a host directory in lower case.
pub open spec fn host_label_of(lower: Seq<char>) -> Seq<char> {
    match after_prefix(lower, "host"@) {
        Some(rest) => arch_label_of(rest),
        None => arch_label_of(lower),
    }
}

/// The name of the compiler with these host and target labels.
pub open spec fn msvc_name_of(host: Seq<char>, target: Seq<char>) -> Seq<char> {
    if host == target {
        "MSVC "@ + host
    } else {
        "MSVC "@ + host + "_"@ + target
    }
}

/// The platform that CMake knows a target directory by; `lower` is its name in lower case.
pub open spec fn cmake_arch_of(lower: Seq<char>, target: Seq<char>) -> Seq<char> {
    if lower == "x64"@ {
        "x64"@
    } else if lower == "x86"@ {
        "Win32"@
    } else if lower == "arm64"@ {
        "ARM64"@
    } else {
        target
    }
}

/// The toolset that chooses the compilers of a host directory, whose name in lower case is
/// `lower`.
pub open spec fn host_toolset_of(lower: Seq<char>) -> Option<Seq<char>> {
    if contains_text(lower, "x86"@) {
        Some("host=x86"@)
    } else {
        None
    }
}

/// The name that Visual Studio's prompts give an architecture.
pub fn arch_label<'a>(a: &'a str) -> (r: &'a str)
    ensures
        r@ == arch_label_of(a@),
{
    if equal(a, "x64") {
        "amd64"
    } else {
        a
    }
}

/// The name of the architecture of a host directory in lower case.
pub fn lower_host_label(lower: &str) -> (r: String)
    ensures
        r@ == host_label_of(lower@),
{
    let chars = to_chars(lower);
    match strip_prefix(chars.as_slice(), "host") {
        Some(rest) => arch_label(string_of(rest).as_str()).to_owned(),
        None => arch_label(lower).to_owned(),
    }
}

/// The name of the architecture of a host directory.
pub fn host_label(host: &str) -> (r: String)
    ensures
        r@ == host_label_of(lowered(host@)),
{
    lower_host_label(to_lowercase(host).as_str())
}

/// The name of the compiler with these host and target labels.
pub fn labelled_msvc_name(host: &str, target: &str) -> (r: String)
    ensures
        r@ == msvc_name_of(host@, target@),
{
    let mut out = "MSVC ".to_owned();
    out.append(host);
    if !equal(host, target) {
        out.append("_");
        out.append(target);
    }
    out
}

/// The name of the compiler that runs on `host` and compiles for `target`.
pub fn msvc_name(host: &str, target: &str) -> (r: String)
    ensures
        r@ == msvc_name_of(host_label_of(lowered(host@)), arch_label_of(lowered(target@))),
{
    let h = host_label(host);
    let low = to_lowercase(target);
    labelled_msvc_name(h.as_str(), arch_label(low.as_str()))
}

/// The platform that CMake knows a target directory by; `lower` is its name in lower case.
pub fn lower_cmake_arch<'a>(lower: &str, target: &'a str) -> (r: &'a str)
    ensures
        r@ == cmake_arch_of(lower@, target@),
{
    if equal(lower, "x64") {
        "x64"
    } else if equal(lower, "x86") {
        "Win32"
    } else if equal(lower, "arm64") {
        "ARM64"
    } else {
        target
    }
}

/// The platform that CMake knows a target directory by.
pub fn cmake_arch<'a>(target: &'a str) -> (r: &'a str)
    ensures
        r@ == cmake_arch_of(lowered(target@), target@),
{
    lower_cmake_arch(to_lowercase(target).as_str(), target)
}

/// The toolset that chooses the compilers of a host directory, whose name in lower case is
/// `lower`.
pub fn lower_host_toolset(lower: &str) -> (r: Option<String>)
    ensures
        opt_text(r) == host_toolset_of(lower@),
{
    if str_contains(lower, "x86") {
        Some("host=x86".to_owned())
    } else {
        None
    }
}

/// The toolset that chooses the compilers of a host directory.
pub fn host_toolset(host: &str) -> (r: Option<String>)
    ensures
        opt_text(r) == host_toolset_of(lowered(host@)),
{
    lower_host_toolset(to_lowercase(host).as_str())
}

// ---------------------------------------------------------------------------
// Generators
// ---------------------------------------------------------------------------

/// The year in the name of a major version. Versions without a known year count on from
/// 2008, modulo two to the sixty-fourth.
pub open spec fn year_of_major(major: u64) -> u64 {
    if major == 15 {
        2017
    } else if major == 16 {
        2019
    } else if major == 17 {
        2022
    } else if major == 18 {
        2026
    } else if major == 19 {
        2029
    } else if 2008 + major <= u64::MAX {
        (2008 + major) as u64
    } else {
        (2008 + major - u64::MAX - 1) as u64
    }
}

/// The major version with a known year.
pub open spec fn major_of_year(year: u64) -> Option<u64> {
    if year == 2017 {
        Some(15u64)
    } else if year == 2019 {
        Some(16u64)
    } else if year == 2022 {
        Some(17u64)
    } else if year == 2026 {
        Some(18u64)
    } else if year == 2029 {
        Some(19u64)
    } else {
        None
    }
}

/// The known years and major versions determine each other.
pub proof fn lemma_years_and_majors(year: u64, major: u64)
    ensures
        major_of_year(year) == Some(major) ==> year_of_major(major) == year,
        15 <= major <= 19 ==> major_of_year(year_of_major(major)) == Some(major),
{
}

/// The first four digits in a row in `s` that write a year from 2000 to 2100.
pub open spec fn year_in(s: Seq<char>) -> Option<u64>
    decreases s.len(),
{
    if s.len() < 4 {
        None
    } else if all_digits(s.take(4)) && 2000 <= value_of(s.take(4)) <= 2100 {
        Some(value_of(s.take(4)) as u64)
    } else {
        year_in(s.skip(1))
    }
}

/// The name of the generator of a major version and year.
pub open spec fn generator_name(major: u64, year: u64) -> Seq<char> {
    "Visual Studio "@ + decimal(major as nat) + " "@ + decimal(year as nat)
}

/// The generator of an installation with this version and display name. The year comes from
/// the name, or else from the major version; a version that does not start with a number has
/// no generator.
pub open spec fn generator_of(version: Seq<char>, display_name: Seq<char>) -> Option<Seq<char>> {
    match parsed(split_on(version, '.')[0]) {
        Some(major) => Some(
            generator_name(
                major,
                match year_in(display_name) {
                    Some(y) => y,
                    None => year_of_major(major),
                },
            ),
        ),
        None => None,
    }
}

/// The generator of an installation below a directory with this name, which is a known year
/// of four digits or a major version.
pub open spec fn generator_of_dir(name: Seq<char>) -> Option<Seq<char>> {
    if name.len() == 4 && all_digits(name) {
        match parsed(name) {
            Some(year) => match major_of_year(year) {
                Some(major) => Some(generator_name(major, year)),
                None => None,
            },
            None => None,
        }
    } else {
        match parsed(name) {
            Some(major) => Some(generator_name(major, year_of_major(major))),
            None => None,
        }
    }
}

/// Every generator that is named here is one of Visual Studio.
pub proof fn lemma_generators_of_studio(version: Seq<char>, display_name: Seq<char>, dir: Seq<char>)
    ensures
        generator_of(version, display_name) matches Some(g) ==> "Visual Studio"@.is_prefix_of(g),
        generator_of_dir(dir) matches Some(g) ==> "Visual Studio"@.is_prefix_of(g),
{
    reveal_strlit("Visual Studio");
    reveal_strlit("Visual Studio ");
}

/// The year in the name of a major version.
pub fn year_for_major(major: u64) -> (r: u64)
    ensures
        r == year_of_major(major),
{
    if major == 15 {
        2017
    } else if major == 16 {
        2019
    } else if major == 17 {
        2022
    } else if major == 18 {
        2026
    } else if major == 19 {
        2029
    } else {
        2008u64.wrapping_add(major)
    }
}

/// The major version with a known year.
fn major_for_year(year: u64) -> (r: Option<u64>)
    ensures
        r == major_of_year(year),
{
    if year == 2017 {
        Some(15)
    } else if year == 2019 {
        Some(16)
    } else if year == 2022 {
        Some(17)
    } else if year == 2026 {
        Some(18)
    } else if year == 2029 {
        Some(19)
    } else {
        None
    }
}

/// The first year from 2000 to 2100 that four digits in a row in `s` write.
pub fn extract_year(s: &str) -> (r: Option<u64>)
    ensures
        r == year_in(s@),
{
    let chars = to_chars(s);
    let c: &[char] = chars.as_slice();
    let n: usize = c.len();
    let mut i: usize = 0;
    proof {
        assert(c@.skip(0) == c@);
    }
    while n >= 4 && i <= n - 4
        invariant
            n == c@.len(),
            c@ == s@,
            i <= n,
            year_in(s@) == year_in(c@.skip(i as int)),
        decreases n - i,
    {
        let four = slice_subrange(c, i, i + 4);
        proof {
            assert(c@.skip(i as int).take(4) == four@);
            assert(c@.skip(i as int).skip(1) == c@.skip(i + 1));
        }
        if only_digits(four) {
            match parse(four) {
                Some(y) => {
                    proof {
                        assert(crate::text::digit(four@[0]));
                        assert(four@ == unsigned_part(four@));
                    }
                    if 2000 <= y && y <= 2100 {
                        return Some(y);
                    }
                },
                None => {
                    proof {
                        assert(crate::text::digit(four@[0]));
                        assert(four@ == unsigned_part(four@));
                    }
                },
            }
        }
        i = i + 1;
    }
    None
}

/// The name of the generator of a major version and year.
fn generator(major: u64, year: u64) -> (r: String)
    ensures
        r@ == generator_name(major, year),
{
    let mut out = "Visual Studio ".to_owned();
    out.append(to_decimal(major).as_str());
    out.append(" ");
    out.append(to_decimal(year).as_str());
    out
}

/// The generator of an installation with this version and display name.
pub fn vs_generator(version: &str, display_name: &str) -> (r: Option<String>)
    ensures
        opt_text(r) == generator_of(version@, display_name@),
{
    let parts = split(to_chars(version).as_slice(), '.');
    proof {
        assert(crate::text::char_seqs(parts@)[0] == parts@[0]@);
    }
    match parse(parts[0].as_slice()) {
        Some(major) => {
            let year: u64 = match extract_year(display_name) {
                Some(y) => y,
                None => year_for_major(major),
            };
            Some(generator(major, year))
        },
        None => None,
    }
}

/// The generator of an installation below a directory with this name.
pub fn generator_from_version_dir(name: &str) -> (r: Option<String>)
    ensures
        opt_text(r) == generator_of_dir(name@),
{
    let chars = to_chars(name);
    let number = parse(chars.as_slice());
    if chars.len() == 4 && only_digits(chars.as_slice()) {
        match number {
            Some(year) => match major_for_year(year) {
                Some(major) => Some(generator(major, year)),
                None => None,
            },
            None => None,
        }
    } else {
        match number {
            Some(major) => Some(generator(major, year_for_major(major))),
            None => None,
        }
    }
}

/// What is known of the name `r` of the directory around the path `p`.
pub open spec fn parent_name_outcome(p: Seq<char>, r: Option<Seq<char>>) -> bool {
    exists|d: Option<Seq<char>>| #[trigger]
        parent_outcome(p, d) && match d {
            Some(d) => file_name_outcome(d, r),
            None => r is None,
        }
}

/// What is known of the generator `r` of the installation at `root`: it is that of the name
/// of the directory around it.
pub open spec fn root_generator_outcome(root: Seq<char>, r: Option<Seq<char>>) -> bool {
    exists|name: Option<Seq<char>>| #[trigger]
        parent_name_outcome(root, name) && r == (match name {
            Some(n) => generator_of_dir(n),
            None => None,
        })
}

/// The name of the directory around a path.
fn parent_name(path: &str) -> (r: Option<String>)
    ensures
        parent_name_outcome(path@, opt_text(r)),
{
    let dir = path_parent(path);
    let ghost d = opt_text(dir);
    match dir {
        Some(dir) => {
            let name = path_file_name(dir.as_str());
            proof {
                assert(parent_outcome(path@, d));
            }
            name
        },
        None => {
            proof {
                assert(parent_outcome(path@, d));
            }
            None
        },
    }
}

/// The generator of the installation at `root`.
pub fn generator_from_root(root: &str) -> (r: Option<String>)
    ensures
        root_generator_outcome(root@, opt_text(r)),
{
    let name = parent_name(root);
    let ghost n = opt_text(name);
    match name {
        Some(name) => {
            let g = generator_from_version_dir(name.as_str());
            proof {
                assert(parent_name_outcome(root@, n));
            }
            g
        },
        None => {
            proof {
                assert(parent_name_outcome(root@, n));
            }
            None
        },
    }
}

// ---------------------------------------------------------------------------
// Installations
// ---------------------------------------------------------------------------

/// An installation of Visual Studio.
#[derive(Clone, Debug)]
pub struct VsInstance {
    pub root: String,
    pub generator: Option<String>,
}

/// The contents of an installation.
pub struct VsInstanceView {
    pub root: Seq<char>,
    pub generator: Option<Seq<char>>,
}

impl View for VsInstance {
    type V = VsInstanceView;

    open spec fn view(&self) -> VsInstanceView {
        VsInstanceView { root: self.root@, generator: opt_text(self.generator) }
    }
}

/// The contents of a list of installations.
pub open spec fn instance_views(v: Seq<VsInstance>) -> Seq<VsInstanceView> {
    v.map_values(|x: VsInstance| x@)
}

/// An installation as `vswhere` reports it.
#[derive(Clone, Debug)]
pub struct VsWhereEntry {
    pub path: String,
    pub version: Option<String>,
    pub display_name: Option<String>,
}

/// The installation that an entry of `vswhere` stands for.
pub open spec fn instance_of_entry(e: VsWhereEntry) -> VsInstanceView {
    VsInstanceView {
        root: e.path@,
        generator: match opt_text(e.version) {
            Some(v) => generator_of(
                v,
                match opt_text(e.display_name) {
                    Some(d) => d,
                    None => Seq::<char>::empty(),
                },
            ),
            None => None,
        },
    }
}

/// The installations that entries of `vswhere` stand for, without those that have no path.
pub open spec fn instances_of_entries(entries: Seq<VsWhereEntry>) -> Seq<VsInstanceView>
    decreases entries.len(),
{
    if entries.len() == 0 {
        Seq::<VsInstanceView>::empty()
    } else {
        let before = instances_of_entries(entries.drop_last());
        if entries.last().path@.len() == 0 {
            before
        } else {
            before.push(instance_of_entry(entries.last()))
        }
    }
}

/// The installation that an entry of `vswhere` stands for.
fn entry_instance(e: &VsWhereEntry) -> (r: VsInstance)
    ensures
        r@ == instance_of_entry(*e),
{
    let generator = match &e.version {
        Some(v) => match &e.display_name {
            Some(d) => vs_generator(v.as_str(), d.as_str()),
            None => vs_generator(v.as_str(), String::new().as_str()),
        },
        None => None,
    };
    VsInstance { root: e.path.clone(), generator }
}

/// The installations that `vswhere` reports. Where it reports none that can be used the
/// result is `None`, and they are to be looked for on disk.
pub fn vs_instances(entries: &Vec<VsWhereEntry>) -> (r: Option<Vec<VsInstance>>)
    ensures
        match r {
            Some(v) => v@.len() > 0 && instance_views(v@) == instances_of_entries(entries@),
            None => instances_of_entries(entries@).len() == 0,
        },
{
    let mut out: Vec<VsInstance> = Vec::new();
    let mut i: usize = 0;
    proof {
        assert(instance_views(out@) =~= instances_of_entries(entries@.take(0)));
    }
    while i < entries.len()
        invariant
            i <= entries@.len(),
            instance_views(out@) == instances_of_entries(entries@.take(i as int)),
        decreases entries@.len() - i,
    {
        proof {
            assert(entries@.take(i + 1).drop_last() == entries@.take(i as int));
        }
        if !entries[i].path.as_str().is_empty() {
            let ghost before = out@;
            let x = entry_instance(&entries[i]);
            out.push(x);
            proof {
                assert(instance_views(out@) =~= instance_views(before).push(x@));
            }
        }
        i = i + 1;
    }
    proof {
        assert(entries@.take(i as int) == entries@);
        assert(instance_views(out@).len() == out@.len());
    }
    if out.len() > 0 {
        Some(out)
    } else {
        None
    }
}

/// The path of the program `vswhere`.
pub fn vswhere_path() -> (r: String)
    ensures
        r@ == "C:\\Program Files (x86)\\Microsoft Visual Studio\\Installer\\vswhere.exe"@,
{
    "C:\\Program Files (x86)\\Microsoft Visual Studio\\Installer\\vswhere.exe".to_owned()
}

/// The arguments with which `vswhere` reports the installations that have compilers.
pub fn vswhere_args() -> (r: Vec<String>)
    ensures
        texts(r@) == seq![
            "-products"@,
            "*"@,
            "-requires"@,
            "Microsoft.VisualStudio.Component.VC.Tools.x86.x64"@,
            "-format"@,
            "json"@,
        ],
{
    let mut out: Vec<String> = Vec::new();
    out.push("-products".to_owned());
    out.push("*".to_owned());
    out.push("-requires".to_owned());
    out.push("Microsoft.VisualStudio.Component.VC.Tools.x86.x64".to_owned());
    out.push("-format".to_owned());
    out.push("json".to_owned());
    proof {
        assert(texts(out@) =~= seq![
            "-products"@,
            "*"@,
            "-requires"@,
            "Microsoft.VisualStudio.Component.VC.Tools.x86.x64"@,
            "-format"@,
            "json"@,
        ]);
    }
    out
}

/// The base directories below which installations are looked for, in their order.
pub fn vs_base_dirs() -> (r: Vec<String>)
    ensures
        texts(r@) == seq![
            "C:\\Program Files\\Microsoft Visual Studio"@,
            "C:\\Program Files (x86)\\Microsoft Visual Studio"@,
        ],
{
    let mut out: Vec<String> = Vec::new();
    out.push("C:\\Program Files\\Microsoft Visual Studio".to_owned());
    out.push("C:\\Program Files (x86)\\Microsoft Visual Studio".to_owned());
    proof {
        assert(texts(out@) =~= seq![
            "C:\\Program Files\\Microsoft Visual Studio"@,
            "C:\\Program Files (x86)\\Microsoft Visual Studio"@,
        ]);
    }
    out
}

/// The directories that lead from an installation to the versions of its compilers.
pub fn msvc_steps() -> (r: Vec<String>)
    ensures
        texts(r@) == seq!["VC"@, "Tools"@, "MSVC"@],
{
    let mut out: Vec<String> = Vec::new();
    out.push("VC".to_owned());
    out.push("Tools".to_owned());
    out.push("MSVC".to_owned());
    proof {
        assert(texts(out@) =~= seq!["VC"@, "Tools"@, "MSVC"@]);
    }
    out
}

/// The directories that lead from an installation to its copies of Clang.
pub fn llvm_steps() -> (r: Vec<String>)
    ensures
        texts(r@) == seq!["VC"@, "Tools"@, "Llvm"@, "x64"@, "bin"@],
{
    let mut out: Vec<String> = Vec::new();
    out.push("VC".to_owned());
    out.push("Tools".to_owned());
    out.push("Llvm".to_owned());
    out.push("x64".to_owned());
    out.push("bin".to_owned());
    proof {
        assert(texts(out@) =~= seq!["VC"@, "Tools"@, "Llvm"@, "x64"@, "bin"@]);
    }
    out
}

/// A directory inside one of the directories that installations are looked for in.
pub struct VsSubdir {
    pub path: String,
    pub has_tools: bool,
}

/// A directory in which installations are looked for, or an installation itself. `name` is its
/// name in the directory around it, `has_tools` says whether the compilers of Visual Studio lie
/// in it, and `children` is `None` where it cannot be read.
pub struct VsDir {
    pub path: String,
    pub name: String,
    pub is_dir: bool,
    pub has_tools: bool,
    pub children: Option<Vec<VsSubdir>>,
}

/// A base directory with this name; `dirs` is `None` where it cannot be read.
pub struct VsBase {
    pub name: String,
    pub dirs: Option<Vec<VsDir>>,
}

/// The installation at `path` in a directory with the name `around`, which tells its generator.
pub open spec fn instance_in(path: Seq<char>, around: Seq<char>) -> VsInstanceView {
    VsInstanceView { root: path, generator: generator_of_dir(around) }
}

/// The installations among the directories of a directory with the name `around`.
pub open spec fn subdirs_found(dirs: Seq<VsSubdir>, around: Seq<char>) -> Seq<VsInstanceView>
    decreases dirs.len(),
{
    if dirs.len() == 0 {
        Seq::<VsInstanceView>::empty()
    } else {
        let before = subdirs_found(dirs.drop_last(), around);
        if dirs.last().has_tools {
            before.push(instance_in(dirs.last().path@, around))
        } else {
            before
        }
    }
}

/// The installations at or directly below `d`, which lies in a directory with the name `around`.
pub open spec fn dir_found(d: VsDir, around: Seq<char>) -> Seq<VsInstanceView> {
    if !d.is_dir {
        Seq::<VsInstanceView>::empty()
    } else if d.has_tools {
        seq![instance_in(d.path@, around)]
    } else {
        match d.children {
            Some(c) => subdirs_found(c@, d.name@),
            None => Seq::<VsInstanceView>::empty(),
        }
    }
}

/// The installations at or directly below the directories of a base directory.
pub open spec fn base_found(dirs: Seq<VsDir>, around: Seq<char>) -> Seq<VsInstanceView>
    decreases dirs.len(),
{
    if dirs.len() == 0 {
        Seq::<VsInstanceView>::empty()
    } else {
        base_found(dirs.drop_last(), around) + dir_found(dirs.last(), around)
    }
}

/// The installations below base directories.
pub open spec fn bases_found(bases: Seq<VsBase>) -> Seq<VsInstanceView>
    decreases bases.len(),
{
    if bases.len() == 0 {
        Seq::<VsInstanceView>::empty()
    } else {
        bases_found(bases.drop_last()) + match bases.last().dirs {
            Some(dirs) => base_found(dirs@, bases.last().name@),
            None => Seq::<VsInstanceView>::empty(),
        }
    }
}

/// Appends the installation at `path` in a directory with the name `around`.
fn push_root(out: &mut Vec<VsInstance>, path: &String, around: &str)
    ensures
        instance_views(final(out)@) == instance_views(old(out)@).push(instance_in(path@, around@)),
{
    let ghost before = out@;
    let x = VsInstance { root: path.clone(), generator: generator_from_version_dir(around) };
    out.push(x);
    proof {
        assert(instance_views(out@) =~= instance_views(before).push(x@));
    }
}

/// Appends the installations among `dirs`, which lie in a directory with the name `around`.
fn push_subdirs(out: &mut Vec<VsInstance>, dirs: &Vec<VsSubdir>, around: &str)
    ensures
        instance_views(final(out)@) == instance_views(old(out)@) + subdirs_found(dirs@, around@),
{
    let ghost start = instance_views(out@);
    let mut i: usize = 0;
    proof {
        assert(start + subdirs_found(dirs@.take(0), around@) =~= start);
    }
    while i < dirs.len()
        invariant
            i <= dirs@.len(),
            instance_views(out@) == start + subdirs_found(dirs@.take(i as int), around@),
        decreases dirs@.len() - i,
    {
        proof {
            assert(dirs@.take(i + 1).drop_last() == dirs@.take(i as int));
        }
        if dirs[i].has_tools {
            push_root(out, &dirs[i].path, around);
            proof {
                assert(instance_views(out@) =~= start + subdirs_found(dirs@.take(i + 1), around@));
            }
        }
        i = i + 1;
    }
    proof {
        assert(dirs@.take(i as int) == dirs@);
    }
}

/// Appends the installations below a base directory with the name `around`.
fn push_base(out: &mut Vec<VsInstance>, dirs: &Vec<VsDir>, around: &str)
    ensures
        instance_views(final(out)@) == instance_views(old(out)@) + base_found(dirs@, around@),
{
    let ghost start = instance_views(out@);
    let mut i: usize = 0;
    proof {
        assert(start + base_found(dirs@.take(0), around@) =~= start);
    }
    while i < dirs.len()
        invariant
            i <= dirs@.len(),
            instance_views(out@) == start + base_found(dirs@.take(i as int), around@),
        decreases dirs@.len() - i,
    {
        proof {
            assert(dirs@.take(i + 1).drop_last() == dirs@.take(i as int));
        }
        if dirs[i].is_dir {
            if dirs[i].has_tools {
                push_root(out, &dirs[i].path, around);
            } else {
                match &dirs[i].children {
                    Some(c) => {
                        push_subdirs(out, c, dirs[i].name.as_str());
                    },
                    None => {},
                }
            }
        }
        proof {
            assert(instance_views(out@) =~= start + base_found(dirs@.take(i + 1), around@));
        }
        i = i + 1;
    }
    proof {
        assert(dirs@.take(i as int) == dirs@);
    }
}

/// The installations below base directories, in the order of their listing. The directory
/// around an installation tells its generator.
pub fn discover_vs_roots(bases: &Vec<VsBase>) -> (r: Vec<VsInstance>)
    ensures
        instance_views(r@) == bases_found(bases@),
{
    let mut out: Vec<VsInstance> = Vec::new();
    let mut i: usize = 0;
    proof {
        assert(instance_views(out@) =~= bases_found(bases@.take(0)));
    }
    while i < bases.len()
        invariant
            i <= bases@.len(),
            instance_views(out@) == bases_found(bases@.take(i as int)),
        decreases bases@.len() - i,
    {
        proof {
            assert(bases@.take(i + 1).drop_last() == bases@.take(i as int));
        }
        match &bases[i].dirs {
            Some(dirs) => {
                push_base(&mut out, dirs, bases[i].name.as_str());
            },
            None => {},
        }
        proof {
            assert(instance_views(out@) =~= bases_found(bases@.take(i + 1)));
        }
        i = i + 1;
    }
    proof {
        assert(bases@.take(i as int) == bases@);
    }
    out
}

} // verus!
