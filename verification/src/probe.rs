//! Toolchains at the places where installers put them, from what was seen there: which files
//! exist and what compilers print.
use vstd::prelude::*;

use crate::platform::lowered;
use crate::text::{clone_opt, digit, is_digit, opt_text, texts, to_chars};
use crate::toolchain::{toolchain_views, Toolchain, ToolchainView};
use crate::version::{
    extract_version, key_le, key_not_after, lemma_key_order, version_in, version_key,
    version_numbers,
};
use crate::visual_studio::{
    arch_label_of, cmake_arch, cmake_arch_of, host_label_of, host_toolset, host_toolset_of,
    msvc_name, msvc_name_of,
};

verus! {

// ---------------------------------------------------------------------------
// Compilers at known places
// ---------------------------------------------------------------------------

/// The argument with which a compiler at a known place tells its version.
pub const VERSION_FLAG: &'static str = "--version";

/// The directory of programs in an installation of MinGW, or in a version of MSVC.
pub const BIN_DIR: &'static str = "bin";

/// The C compiler of MinGW.
pub const GCC_EXE: &'static str = "gcc.exe";

/// The C++ compiler of MinGW.
pub const GXX_EXE: &'static str = "g++.exe";

/// The C compiler of LLVM.
pub const CLANG_EXE: &'static str = "clang.exe";

/// The C++ compiler of LLVM.
pub const CLANGXX_EXE: &'static str = "clang++.exe";

/// The compiler of LLVM that takes the options of MSVC.
pub const CLANG_CL_EXE: &'static str = "clang-cl.exe";

/// The compiler of MSVC.
pub const CL_EXE: &'static str = "cl.exe";

/// A place where a compiler may lie. `output` is what it prints when asked for its version,
/// `None` where it cannot be run; `cxx` is the C++ compiler beside it, where there is one.
pub struct CompilerFile {
    pub path: String,
    pub exists: bool,
    pub output: Option<String>,
    pub cxx: Option<String>,
}

/// The version of the compiler at a place.
pub open spec fn file_version(c: CompilerFile) -> Option<Seq<char>> {
    if c.exists {
        match opt_text(c.output) {
            Some(text) => version_in(text),
            None => None,
        }
    } else {
        None
    }
}

/// The version of the compiler at a place.
fn version_of(c: &CompilerFile) -> (r: Option<String>)
    ensures
        opt_text(r) == file_version(*c),
{
    if !c.exists {
        return None;
    }
    match &c.output {
        Some(text) => extract_version(text.as_str()),
        None => None,
    }
}

/// A GCC or Clang with this identifier and name, which builds with the makefiles of MinGW.
pub open spec fn makefile_toolchain(
    id: Seq<char>,
    name: Seq<char>,
    version: Seq<char>,
    c: CompilerFile,
) -> ToolchainView {
    ToolchainView {
        id,
        name,
        version,
        path: c.path@,
        cxx: opt_text(c.cxx),
        generator: Some("MinGW Makefiles"@),
        arch: None,
        triple: None,
        toolset: None,
    }
}

/// A GCC or Clang with this identifier and name, which builds with the makefiles of MinGW.
fn new_makefile_toolchain(id: &str, name: &str, version: String, c: &CompilerFile) -> (r: Toolchain)
    ensures
        r@ == makefile_toolchain(id@, name@, version@, *c),
{
    Toolchain {
        id: id.to_owned(),
        name: name.to_owned(),
        version,
        path: c.path.clone(),
        cxx: clone_opt(&c.cxx),
        generator: Some("MinGW Makefiles".to_owned()),
        arch: None,
        triple: None,
        toolset: None,
    }
}

/// The directories in which MinGW is usually installed.
pub open spec fn mingw_root_texts() -> Seq<Seq<char>> {
    seq![
        "D:\\mingw64"@,
        "C:\\mingw64"@,
        "C:\\msys64\\mingw64"@,
        "C:\\msys64\\ucrt64"@,
        "C:\\msys64\\clang64"@,
    ]
}

/// The directories in which MinGW is usually installed, in the order of preference.
pub fn mingw_roots() -> (r: Vec<String>)
    ensures
        texts(r@) == mingw_root_texts(),
{
    let mut out: Vec<String> = Vec::new();
    out.push("D:\\mingw64".to_owned());
    out.push("C:\\mingw64".to_owned());
    out.push("C:\\msys64\\mingw64".to_owned());
    out.push("C:\\msys64\\ucrt64".to_owned());
    out.push("C:\\msys64\\clang64".to_owned());
    proof {
        assert(texts(out@) =~= mingw_root_texts());
    }
    out
}

/// The toolchains of the copies of GCC that exist and tell their version.
pub open spec fn mingw_found(files: Seq<CompilerFile>) -> Seq<ToolchainView>
    decreases files.len(),
{
    if files.len() == 0 {
        Seq::<ToolchainView>::empty()
    } else {
        let before = mingw_found(files.drop_last());
        match file_version(files.last()) {
            Some(v) => before.push(makefile_toolchain("gcc"@, "GCC"@, v, files.last())),
            None => before,
        }
    }
}

/// The toolchains of the copies of GCC at the usual places of MinGW.
pub fn probe_mingw(files: &Vec<CompilerFile>) -> (r: Vec<Toolchain>)
    ensures
        toolchain_views(r@) == mingw_found(files@),
{
    let mut found: Vec<Toolchain> = Vec::new();
    let mut i: usize = 0;
    proof {
        assert(toolchain_views(found@) =~= mingw_found(files@.take(0)));
    }
    while i < files.len()
        invariant
            i <= files@.len(),
            toolchain_views(found@) == mingw_found(files@.take(i as int)),
        decreases files@.len() - i,
    {
        proof {
            assert(files@.take(i + 1).drop_last() == files@.take(i as int));
        }
        match version_of(&files[i]) {
            Some(version) => {
                let ghost before = found@;
                let tc = new_makefile_toolchain("gcc", "GCC", version, &files[i]);
                found.push(tc);
                proof {
                    assert(toolchain_views(found@) =~= toolchain_views(before).push(tc@));
                }
            },
            None => {},
        }
        i = i + 1;
    }
    proof {
        assert(files@.take(i as int) == files@);
    }
    found
}

// ---------------------------------------------------------------------------
// Clang inside Visual Studio
// ---------------------------------------------------------------------------

/// The copies of Clang inside an installation of Visual Studio with this generator.
pub struct LlvmTools {
    pub generator: Option<String>,
    pub clang: CompilerFile,
    pub clang_cl: CompilerFile,
}

/// Clang's driver for the options of MSVC, as a toolset of Visual Studio.
pub open spec fn clang_cl_toolchain(
    version: Seq<char>,
    path: Seq<char>,
    generator: Option<Seq<char>>,
) -> ToolchainView {
    ToolchainView {
        id: "clang-cl"@,
        name: "Clang (MSVC CLI)"@,
        version,
        path,
        cxx: Some(path),
        generator,
        arch: Some("x64"@),
        triple: None,
        toolset: Some("ClangCL"@),
    }
}

/// The toolchains of one installation.
pub open spec fn llvm_tools_found(t: LlvmTools) -> Seq<ToolchainView> {
    let gnu = match file_version(t.clang) {
        Some(v) => seq![makefile_toolchain("clang"@, "Clang"@, v, t.clang)],
        None => Seq::<ToolchainView>::empty(),
    };
    match file_version(t.clang_cl) {
        Some(v) => gnu.push(clang_cl_toolchain(v, t.clang_cl.path@, opt_text(t.generator))),
        None => gnu,
    }
}

/// The toolchains of the copies of Clang inside installations of Visual Studio.
pub open spec fn llvm_found(tools: Seq<LlvmTools>) -> Seq<ToolchainView>
    decreases tools.len(),
{
    if tools.len() == 0 {
        Seq::<ToolchainView>::empty()
    } else {
        llvm_found(tools.drop_last()) + llvm_tools_found(tools.last())
    }
}

/// The toolchains of the copies of Clang inside installations of Visual Studio.
pub fn probe_llvm(tools: &Vec<LlvmTools>) -> (r: Vec<Toolchain>)
    ensures
        toolchain_views(r@) == llvm_found(tools@),
{
    let mut found: Vec<Toolchain> = Vec::new();
    let mut i: usize = 0;
    proof {
        assert(toolchain_views(found@) =~= llvm_found(tools@.take(0)));
    }
    while i < tools.len()
        invariant
            i <= tools@.len(),
            toolchain_views(found@) == llvm_found(tools@.take(i as int)),
        decreases tools@.len() - i,
    {
        let t = &tools[i];
        let ghost before = toolchain_views(found@);
        proof {
            assert(tools@.take(i + 1).drop_last() == tools@.take(i as int));
        }
        match version_of(&t.clang) {
            Some(version) => {
                found.push(new_makefile_toolchain("clang", "Clang", version, &t.clang));
            },
            None => {},
        }
        match version_of(&t.clang_cl) {
            Some(version) => {
                found.push(
                    Toolchain {
                        id: "clang-cl".to_owned(),
                        name: "Clang (MSVC CLI)".to_owned(),
                        version,
                        path: t.clang_cl.path.clone(),
                        cxx: Some(t.clang_cl.path.clone()),
                        generator: clone_opt(&t.generator),
                        arch: Some("x64".to_owned()),
                        triple: None,
                        toolset: Some("ClangCL".to_owned()),
                    },
                );
            },
            None => {},
        }
        proof {
            assert(toolchain_views(found@) =~= before + llvm_tools_found(*t));
        }
        i = i + 1;
    }
    proof {
        assert(tools@.take(i as int) == tools@);
    }
    found
}

// ---------------------------------------------------------------------------
// MSVC
// ---------------------------------------------------------------------------

/// A directory for a target below one for a host. `has_cl` says whether the compiler lies in
/// it, at `cl_path`.
pub struct MsvcTarget {
    pub name: String,
    pub is_dir: bool,
    pub has_cl: bool,
    pub cl_path: String,
}

/// A directory for a host below a version; `targets` is `None` where it cannot be read.
pub struct MsvcHost {
    pub name: String,
    pub is_dir: bool,
    pub targets: Option<Vec<MsvcTarget>>,
}

/// A directory for a version of the tools; `hosts` is `None` where its programs cannot be
/// listed.
pub struct MsvcVersion {
    pub name: String,
    pub is_dir: bool,
    pub hosts: Option<Vec<MsvcHost>>,
}

/// The tools of an installation with this generator; `versions` is `None` where they cannot
/// be listed.
pub struct MsvcTools {
    pub generator: Option<String>,
    pub versions: Option<Vec<MsvcVersion>>,
}

/// Whether a directory is one for a version of the tools: its name starts with a digit.
pub open spec fn version_dir(v: MsvcVersion) -> bool {
    v.is_dir && v.name@.len() > 0 && digit(v.name@[0])
}

/// The directory at `i` is the latest: no other is later by the numbers of its name, and
/// none after it in the list is as late.
pub open spec fn latest_at(versions: Seq<MsvcVersion>, i: int) -> bool {
    &&& 0 <= i < versions.len()
    &&& version_dir(versions[i])
    &&& forall|k: int|
        0 <= k < versions.len() && version_dir(#[trigger] versions[k]) ==> {
            &&& key_le(version_numbers(versions[k].name@), version_numbers(versions[i].name@))
            &&& k > i ==> !key_le(
                version_numbers(versions[i].name@),
                version_numbers(versions[k].name@),
            )
        }
}

/// At most one directory is the latest.
pub proof fn lemma_latest_unique(versions: Seq<MsvcVersion>, i: int, j: int)
    requires
        latest_at(versions, i),
        latest_at(versions, j),
    ensures
        i == j,
{
    assert(version_dir(versions[i]) && version_dir(versions[j]));
}

/// The position of the directory of the latest version.
pub fn latest_version(versions: &Vec<MsvcVersion>) -> (r: Option<usize>)
    ensures
        match r {
            Some(i) => latest_at(versions@, i as int),
            None => forall|k: int| 0 <= k < versions@.len() ==> !version_dir(#[trigger] versions@[k]),
        },
{
    let mut best: Option<usize> = None;
    let mut i: usize = 0;
    while i < versions.len()
        invariant
            i <= versions@.len(),
            match best {
                Some(b) => latest_at(versions@.take(i as int), b as int),
                None => forall|k: int| 0 <= k < i ==> !version_dir(#[trigger] versions@[k]),
            },
        decreases versions@.len() - i,
    {
        let v = &versions[i];
        let name = to_chars(v.name.as_str());
        let ghost before = versions@.take(i as int);
        let ghost after = versions@.take(i + 1);
        proof {
            assert forall|k: int| 0 <= k < i implies #[trigger] after[k] == before[k] by {}
        }
        if v.is_dir && name.len() > 0 && is_digit(name[0]) {
            let later = match best {
                Some(b) => {
                    let old_key = version_key(versions[b].name.as_str());
                    let new_key = version_key(v.name.as_str());
                    key_not_after(&old_key, &new_key)
                },
                None => true,
            };
            proof {
                lemma_key_order(
                    version_numbers(v.name@),
                    version_numbers(v.name@),
                    version_numbers(v.name@),
                );
                if best is Some {
                    let b = best->0 as int;
                    assert(before[b] == versions@[b]);
                    lemma_key_order(
                        version_numbers(versions@[b].name@),
                        version_numbers(v.name@),
                        version_numbers(v.name@),
                    );
                    if later {
                        assert forall|k: int|
                            0 <= k < after.len() && version_dir(#[trigger] after[k]) implies key_le(
                            version_numbers(after[k].name@),
                            version_numbers(v.name@),
                        ) by {
                            if k < i {
                                assert(after[k] == before[k]);
                                lemma_key_order(
                                    version_numbers(before[k].name@),
                                    version_numbers(versions@[b].name@),
                                    version_numbers(v.name@),
                                );
                            }
                        }
                    }
                }
            }
            if later {
                best = Some(i);
            }
            proof {
                assert(latest_at(after, best->0 as int));
            }
        } else {
            proof {
                if best is Some {
                    assert(latest_at(after, best->0 as int));
                }
            }
        }
        i = i + 1;
    }
    proof {
        assert(versions@.take(i as int) == versions@);
    }
    best
}

/// The compiler of MSVC in a target directory.
pub open spec fn msvc_toolchain(
    version: Seq<char>,
    generator: Option<Seq<char>>,
    host: Seq<char>,
    target: MsvcTarget,
) -> ToolchainView {
    ToolchainView {
        id: "msvc"@,
        name: msvc_name_of(host_label_of(lowered(host)), arch_label_of(lowered(target.name@))),
        version,
        path: target.cl_path@,
        cxx: None,
        generator,
        arch: Some(cmake_arch_of(lowered(target.name@), target.name@)),
        triple: None,
        toolset: host_toolset_of(lowered(host)),
    }
}

/// The compilers in the target directories of a host.
pub open spec fn msvc_targets_found(
    version: Seq<char>,
    generator: Option<Seq<char>>,
    host: Seq<char>,
    targets: Seq<MsvcTarget>,
) -> Seq<ToolchainView>
    decreases targets.len(),
{
    if targets.len() == 0 {
        Seq::<ToolchainView>::empty()
    } else {
        let before = msvc_targets_found(version, generator, host, targets.drop_last());
        let t = targets.last();
        if t.is_dir && t.has_cl {
            before.push(msvc_toolchain(version, generator, host, t))
        } else {
            before
        }
    }
}

/// The compilers below the host directories of a version.
pub open spec fn msvc_hosts_found(
    version: Seq<char>,
    generator: Option<Seq<char>>,
    hosts: Seq<MsvcHost>,
) -> Seq<ToolchainView>
    decreases hosts.len(),
{
    if hosts.len() == 0 {
        Seq::<ToolchainView>::empty()
    } else {
        let h = hosts.last();
        msvc_hosts_found(version, generator, hosts.drop_last()) + if h.is_dir {
            match h.targets {
                Some(t) => msvc_targets_found(version, generator, h.name@, t@),
                None => Seq::<ToolchainView>::empty(),
            }
        } else {
            Seq::<ToolchainView>::empty()
        }
    }
}

/// The compilers of the latest version of an installation's tools.
pub open spec fn msvc_tools_found(t: MsvcTools) -> Seq<ToolchainView> {
    match t.versions {
        Some(versions) => if exists|i: int| latest_at(versions@, i) {
            let latest = versions@[choose|i: int| latest_at(versions@, i)];
            match latest.hosts {
                Some(hosts) => msvc_hosts_found(latest.name@, opt_text(t.generator), hosts@),
                None => Seq::<ToolchainView>::empty(),
            }
        } else {
            Seq::<ToolchainView>::empty()
        },
        None => Seq::<ToolchainView>::empty(),
    }
}

/// The compilers of the latest versions of the tools of installations.
pub open spec fn msvc_found(tools: Seq<MsvcTools>) -> Seq<ToolchainView>
    decreases tools.len(),
{
    if tools.len() == 0 {
        Seq::<ToolchainView>::empty()
    } else {
        msvc_found(tools.drop_last()) + msvc_tools_found(tools.last())
    }
}

/// Appends the compilers in the target directories of a host.
fn push_msvc_targets(
    found: &mut Vec<Toolchain>,
    version: &String,
    generator: &Option<String>,
    host: &String,
    targets: &Vec<MsvcTarget>,
)
    ensures
        toolchain_views(final(found)@) == toolchain_views(old(found)@) + msvc_targets_found(
            version@,
            opt_text(*generator),
            host@,
            targets@,
        ),
{
    let ghost start = toolchain_views(found@);
    let ghost v = version@;
    let ghost g = opt_text(*generator);
    let mut i: usize = 0;
    proof {
        assert(start + msvc_targets_found(v, g, host@, targets@.take(0)) =~= start);
    }
    while i < targets.len()
        invariant
            i <= targets@.len(),
            v == version@,
            g == opt_text(*generator),
            toolchain_views(found@) == start + msvc_targets_found(
                v,
                g,
                host@,
                targets@.take(i as int),
            ),
        decreases targets@.len() - i,
    {
        let t = &targets[i];
        let ghost before = found@;
        proof {
            assert(targets@.take(i + 1).drop_last() == targets@.take(i as int));
        }
        if t.is_dir && t.has_cl {
            let tc = Toolchain {
                id: "msvc".to_owned(),
                name: msvc_name(host.as_str(), t.name.as_str()),
                version: version.clone(),
                path: t.cl_path.clone(),
                cxx: None,
                generator: clone_opt(generator),
                arch: Some(cmake_arch(t.name.as_str()).to_owned()),
                triple: None,
                toolset: host_toolset(host.as_str()),
            };
            found.push(tc);
            proof {
                assert(toolchain_views(found@) =~= toolchain_views(before).push(tc@));
                assert(toolchain_views(found@) =~= start + msvc_targets_found(
                    v,
                    g,
                    host@,
                    targets@.take(i + 1),
                ));
            }
        }
        i = i + 1;
    }
    proof {
        assert(targets@.take(i as int) == targets@);
    }
}

/// Appends the compilers below the host directories of a version.
fn push_msvc_hosts(
    found: &mut Vec<Toolchain>,
    version: &String,
    generator: &Option<String>,
    hosts: &Vec<MsvcHost>,
)
    ensures
        toolchain_views(final(found)@) == toolchain_views(old(found)@) + msvc_hosts_found(
            version@,
            opt_text(*generator),
            hosts@,
        ),
{
    let ghost start = toolchain_views(found@);
    let ghost v = version@;
    let ghost g = opt_text(*generator);
    let mut i: usize = 0;
    proof {
        assert(start + msvc_hosts_found(v, g, hosts@.take(0)) =~= start);
    }
    while i < hosts.len()
        invariant
            i <= hosts@.len(),
            v == version@,
            g == opt_text(*generator),
            toolchain_views(found@) == start + msvc_hosts_found(v, g, hosts@.take(i as int)),
        decreases hosts@.len() - i,
    {
        let h = &hosts[i];
        proof {
            assert(hosts@.take(i + 1).drop_last() == hosts@.take(i as int));
        }
        if h.is_dir {
            match &h.targets {
                Some(t) => {
                    push_msvc_targets(found, version, generator, &h.name, t);
                },
                None => {},
            }
        }
        proof {
            assert(toolchain_views(found@) =~= start + msvc_hosts_found(v, g, hosts@.take(i + 1)));
        }
        i = i + 1;
    }
    proof {
        assert(hosts@.take(i as int) == hosts@);
    }
}

/// The compilers of the latest versions of the tools of installations.
pub fn probe_msvc(tools: &Vec<MsvcTools>) -> (r: Vec<Toolchain>)
    ensures
        toolchain_views(r@) == msvc_found(tools@),
{
    let mut found: Vec<Toolchain> = Vec::new();
    let mut i: usize = 0;
    proof {
        assert(toolchain_views(found@) =~= msvc_found(tools@.take(0)));
    }
    while i < tools.len()
        invariant
            i <= tools@.len(),
            toolchain_views(found@) == msvc_found(tools@.take(i as int)),
        decreases tools@.len() - i,
    {
        let t = &tools[i];
        let ghost before = toolchain_views(found@);
        proof {
            assert(tools@.take(i + 1).drop_last() == tools@.take(i as int));
        }
        match &t.versions {
            Some(versions) => match latest_version(versions) {
                Some(k) => {
                    proof {
                        lemma_latest_unique(
                            versions@,
                            k as int,
                            choose|i: int| latest_at(versions@, i),
                        );
                    }
                    match &versions[k].hosts {
                        Some(hosts) => {
                            push_msvc_hosts(&mut found, &versions[k].name, &t.generator, hosts);
                        },
                        None => {},
                    }
                },
                None => {
                    proof {
                        assert forall|j: int| !latest_at(versions@, j) by {}
                    }
                },
            },
            None => {},
        }
        proof {
            assert(toolchain_views(found@) =~= before + msvc_tools_found(*t));
        }
        i = i + 1;
    }
    proof {
        assert(tools@.take(i as int) == tools@);
    }
    found
}

} // verus!
