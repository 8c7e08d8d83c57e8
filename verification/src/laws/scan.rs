//! Laws on the scan for toolchains: it misses none and makes none up.
use vstd::prelude::*;

use crate::platform::lowered;
use crate::probe::{
    latest_at, lemma_latest_unique, llvm_found, llvm_tools_found, mingw_found, msvc_found,
    msvc_hosts_found, msvc_targets_found, msvc_tools_found, CompilerFile, LlvmTools, MsvcHost,
    MsvcTarget, MsvcTools,
};
use crate::scan::{deduplicated, has_path, host_found, known_found, lemma_deduplicated, HostView};
use crate::search_path::{path_files_found, path_found, PathDir, PathFile};
use crate::text::{contains_text, opt_text, without_suffixes};
use crate::toolchain::ToolchainView;
use crate::vendor::{cxx_sibling_of, kind_of_stem, target_in, vendor_version, Vendor};
use crate::version::version_in;
use crate::visual_studio::{
    arch_label_of, cmake_arch_of, host_label_of, host_toolset_of, msvc_name_of,
};

verus! {

/// Some toolchain of a list has this path, without regard to case.
pub open spec fn listed(l: Seq<ToolchainView>, path: Seq<char>) -> bool {
    exists|k: int| 0 <= k < l.len() && lowered((#[trigger] l[k]).path) == lowered(path)
}

// ---------------------------------------------------------------------------
// Copies
// ---------------------------------------------------------------------------

/// Taking out copies keeps every path, and of the toolchains with one path the first.
pub proof fn law_copies(l: Seq<ToolchainView>, i: int)
    requires
        0 <= i < l.len(),
    ensures
        listed(deduplicated(l), l[i].path),
        (forall|k: int| 0 <= k < i ==> lowered((#[trigger] l[k]).path) != lowered(l[i].path))
            ==> deduplicated(l).contains(l[i]),
    decreases l.len(),
{
    let init = l.drop_last();
    let before = deduplicated(init);
    let d = deduplicated(l);
    if i < init.len() {
        assert(init[i] == l[i]);
        law_copies(init, i);
        let k = choose|k: int|
            0 <= k < before.len() && lowered((#[trigger] before[k]).path) == lowered(l[i].path);
        assert(d[k] == before[k]);
        if forall|k: int| 0 <= k < i ==> lowered((#[trigger] l[k]).path) != lowered(l[i].path) {
            assert forall|k: int| 0 <= k < i implies lowered((#[trigger] init[k]).path) != lowered(
                init[i].path,
            ) by {
                assert(init[k] == l[k]);
            }
            let j = choose|j: int| 0 <= j < before.len() && before[j] == l[i];
            assert(d[j] == l[i]);
        }
    } else {
        if has_path(before, l.last().path) {
            let k = choose|k: int|
                0 <= k < before.len() && lowered((#[trigger] before[k]).path) == lowered(
                    l.last().path,
                );
            assert(d[k] == before[k]);
            lemma_deduplicated(init);
            assert(init.contains(before[k]));
            let m = choose|m: int| 0 <= m < init.len() && init[m] == before[k];
            assert(l[m] == init[m]);
        } else {
            assert(d[before.len() as int] == l[i]);
        }
    }
}

/// A toolchain of a list is listed after copies are taken out.
proof fn lemma_kept(l: Seq<ToolchainView>, t: ToolchainView)
    requires
        l.contains(t),
    ensures
        listed(deduplicated(l), t.path),
{
    let i = choose|i: int| 0 <= i < l.len() && l[i] == t;
    law_copies(l, i);
}

/// What one of two lists holds, both together hold.
proof fn lemma_both(a: Seq<ToolchainView>, b: Seq<ToolchainView>, t: ToolchainView)
    ensures
        a.contains(t) || b.contains(t) <==> (a + b).contains(t),
{
    let c = a + b;
    if a.contains(t) {
        let i = choose|i: int| 0 <= i < a.len() && a[i] == t;
        assert(c[i] == t);
    }
    if b.contains(t) {
        let i = choose|i: int| 0 <= i < b.len() && b[i] == t;
        assert(c[a.len() + i] == t);
    }
    if c.contains(t) {
        let i = choose|i: int| 0 <= i < c.len() && c[i] == t;
        if i < a.len() {
            assert(a[i] == t);
        } else {
            assert(b[i - a.len()] == t);
        }
    }
}

/// What a list holds, it holds with one more behind it.
proof fn lemma_more(a: Seq<ToolchainView>, x: ToolchainView, t: ToolchainView)
    ensures
        a.contains(t) || x == t <==> a.push(x).contains(t),
{
    lemma_both(a, seq![x], t);
    assert(a + seq![x] =~= a.push(x));
    assert(seq![x][0] == x);
}

// ---------------------------------------------------------------------------
// MinGW
// ---------------------------------------------------------------------------

/// The toolchain of a GCC or Clang at a known place.
pub open spec fn gnu_toolchain(
    id: Seq<char>,
    name: Seq<char>,
    c: CompilerFile,
    version: Seq<char>,
) -> ToolchainView {
    ToolchainView {
        id,
        name,
        version,
        path: c.path@,
        cxx: opt_text(c.cxx),
        generator: Some("MinGW Makefiles"@),
        arch: None,
        triple: None,
        toolset: None,
    }
}

/// A compiler that is there and prints a version, and the version that it prints.
pub open spec fn tells_version(c: CompilerFile, version: Seq<char>) -> bool {
    &&& c.exists
    &&& opt_text(c.output) matches Some(text) && version_in(text) == Some(version)
}

/// Every GCC at a usual place of MinGW that tells its version is found as what it is.
pub proof fn law_mingw_found(files: Seq<CompilerFile>, i: int, version: Seq<char>)
    requires
        0 <= i < files.len(),
        tells_version(files[i], version),
    ensures
        mingw_found(files).contains(gnu_toolchain("gcc"@, "GCC"@, files[i], version)),
    decreases files.len(),
{
    let init = files.drop_last();
    let t = gnu_toolchain("gcc"@, "GCC"@, files[i], version);
    if i < init.len() {
        assert(init[i] == files[i]);
        law_mingw_found(init, i, version);
    }
    match crate::probe::file_version(files.last()) {
        Some(v) => {
            lemma_more(
                mingw_found(init),
                crate::probe::makefile_toolchain("gcc"@, "GCC"@, v, files.last()),
                t,
            );
        },
        None => {},
    }
}

/// What is found at the usual places of MinGW is a GCC there that tells its version.
pub proof fn law_mingw_real(files: Seq<CompilerFile>, t: ToolchainView)
    requires
        mingw_found(files).contains(t),
    ensures
        exists|i: int|
            0 <= i < files.len() && tells_version(#[trigger] files[i], t.version) && t
                == gnu_toolchain("gcc"@, "GCC"@, files[i], t.version),
    decreases files.len(),
{
    let init = files.drop_last();
    if files.len() > 0 {
        let f = files[files.len() - 1];
        match crate::probe::file_version(f) {
            Some(v) => {
                let x = crate::probe::makefile_toolchain("gcc"@, "GCC"@, v, f);
                lemma_more(mingw_found(init), x, t);
                if x == t {
                    assert(tells_version(f, v));
                }
            },
            None => {},
        }
        if mingw_found(init).contains(t) {
            law_mingw_real(init, t);
            let i = choose|i: int|
                0 <= i < init.len() && tells_version(#[trigger] init[i], t.version) && t
                    == gnu_toolchain("gcc"@, "GCC"@, init[i], t.version);
            assert(files[i] == init[i]);
        }
    }
}

// ---------------------------------------------------------------------------
// Clang inside Visual Studio
// ---------------------------------------------------------------------------

/// The toolchain of Clang's driver for the options of MSVC inside an installation.
pub open spec fn driver_toolchain(t: LlvmTools, version: Seq<char>) -> ToolchainView {
    ToolchainView {
        id: "clang-cl"@,
        name: "Clang (MSVC CLI)"@,
        version,
        path: t.clang_cl.path@,
        cxx: Some(t.clang_cl.path@),
        generator: opt_text(t.generator),
        arch: Some("x64"@),
        triple: None,
        toolset: Some("ClangCL"@),
    }
}

/// Every Clang inside an installation that tells its version is found as what it is.
pub proof fn law_llvm_found(tools: Seq<LlvmTools>, i: int, version: Seq<char>)
    requires
        0 <= i < tools.len(),
    ensures
        tells_version(tools[i].clang, version) ==> llvm_found(tools).contains(
            gnu_toolchain("clang"@, "Clang"@, tools[i].clang, version),
        ),
        tells_version(tools[i].clang_cl, version) ==> llvm_found(tools).contains(
            driver_toolchain(tools[i], version),
        ),
    decreases tools.len(),
{
    let init = tools.drop_last();
    let here = llvm_tools_found(tools.last());
    let a = gnu_toolchain("clang"@, "Clang"@, tools[i].clang, version);
    let b = driver_toolchain(tools[i], version);
    lemma_both(llvm_found(init), here, a);
    lemma_both(llvm_found(init), here, b);
    if i < init.len() {
        assert(init[i] == tools[i]);
        law_llvm_found(init, i, version);
    } else {
        if tells_version(tools[i].clang, version) {
            assert(here[0] == a);
        }
        if tells_version(tools[i].clang_cl, version) {
            assert(here[here.len() - 1] == b);
        }
    }
}

/// What is found inside installations as Clang is a Clang there that tells its version.
pub proof fn law_llvm_real(tools: Seq<LlvmTools>, t: ToolchainView)
    requires
        llvm_found(tools).contains(t),
    ensures
        exists|i: int|
            0 <= i < tools.len() && ((tells_version((#[trigger] tools[i]).clang, t.version) && t
                == gnu_toolchain("clang"@, "Clang"@, tools[i].clang, t.version)) || (tells_version(
                tools[i].clang_cl,
                t.version,
            ) && t == driver_toolchain(tools[i], t.version))),
    decreases tools.len(),
{
    let init = tools.drop_last();
    if tools.len() > 0 {
        let last = tools[tools.len() - 1];
        let here = llvm_tools_found(last);
        lemma_both(llvm_found(init), here, t);
        if llvm_found(init).contains(t) {
            law_llvm_real(init, t);
            let i = choose|i: int|
                0 <= i < init.len() && ((tells_version((#[trigger] init[i]).clang, t.version) && t
                    == gnu_toolchain("clang"@, "Clang"@, init[i].clang, t.version)) || (
                tells_version(init[i].clang_cl, t.version) && t == driver_toolchain(
                    init[i],
                    t.version,
                )));
            assert(tools[i] == init[i]);
        } else {
            let k = choose|k: int| 0 <= k < here.len() && here[k] == t;
            assert(tells_version(last.clang, t.version) || tells_version(last.clang_cl, t.version));
        }
    }
}

// ---------------------------------------------------------------------------
// MSVC
// ---------------------------------------------------------------------------

/// The toolchain of the MSVC compiler in a target directory of a host directory of a version.
pub open spec fn cl_toolchain(
    version: Seq<char>,
    generator: Option<Seq<char>>,
    host: Seq<char>,
    target: MsvcTarget,
) -> ToolchainView {
    ToolchainView {
        id: "msvc"@,
        name: msvc_name_of(host_label_of(lowered(host)), arch_label_of(lowered(target.name@))),
        version,
        path: target.cl_path@,
        cxx: None,
        generator,
        arch: Some(cmake_arch_of(lowered(target.name@), target.name@)),
        triple: None,
        toolset: host_toolset_of(lowered(host)),
    }
}

proof fn lemma_targets_found(
    version: Seq<char>,
    generator: Option<Seq<char>>,
    host: Seq<char>,
    targets: Seq<MsvcTarget>,
    i: int,
)
    requires
        0 <= i < targets.len(),
        targets[i].is_dir,
        targets[i].has_cl,
    ensures
        msvc_targets_found(version, generator, host, targets).contains(
            cl_toolchain(version, generator, host, targets[i]),
        ),
    decreases targets.len(),
{
    let init = targets.drop_last();
    let before = msvc_targets_found(version, generator, host, init);
    let t = cl_toolchain(version, generator, host, targets[i]);
    if i < init.len() {
        assert(init[i] == targets[i]);
        lemma_targets_found(version, generator, host, init, i);
    }
    lemma_more(before, cl_toolchain(version, generator, host, targets.last()), t);
}

proof fn lemma_hosts_found(
    version: Seq<char>,
    generator: Option<Seq<char>>,
    hosts: Seq<MsvcHost>,
    h: int,
    i: int,
)
    requires
        0 <= h < hosts.len(),
        hosts[h].is_dir,
        hosts[h].targets is Some,
        0 <= i < hosts[h].targets->0@.len(),
        hosts[h].targets->0@[i].is_dir,
        hosts[h].targets->0@[i].has_cl,
    ensures
        msvc_hosts_found(version, generator, hosts).contains(
            cl_toolchain(version, generator, hosts[h].name@, hosts[h].targets->0@[i]),
        ),
    decreases hosts.len(),
{
    let init = hosts.drop_last();
    let last = hosts.last();
    let before = msvc_hosts_found(version, generator, init);
    let t = cl_toolchain(version, generator, hosts[h].name@, hosts[h].targets->0@[i]);
    let here = if last.is_dir && last.targets is Some {
        msvc_targets_found(version, generator, last.name@, last.targets->0@)
    } else {
        Seq::<ToolchainView>::empty()
    };
    assert(msvc_hosts_found(version, generator, hosts) == before + here);
    lemma_both(before, here, t);
    if h < init.len() {
        assert(init[h] == hosts[h]);
        lemma_hosts_found(version, generator, init, h, i);
    } else {
        lemma_targets_found(version, generator, last.name@, last.targets->0@, i);
    }
}

/// A compiler of MSVC that was seen: in the target directory `i` of the host directory `h` of
/// the latest version `v` of the tools of an installation.
pub open spec fn cl_seen(t: MsvcTools, v: int, h: int, i: int) -> bool {
    &&& t.versions is Some
    &&& latest_at(t.versions->0@, v)
    &&& t.versions->0@[v].hosts is Some
    &&& 0 <= h < t.versions->0@[v].hosts->0@.len()
    &&& t.versions->0@[v].hosts->0@[h].is_dir
    &&& t.versions->0@[v].hosts->0@[h].targets is Some
    &&& 0 <= i < t.versions->0@[v].hosts->0@[h].targets->0@.len()
    &&& t.versions->0@[v].hosts->0@[h].targets->0@[i].is_dir
    &&& t.versions->0@[v].hosts->0@[h].targets->0@[i].has_cl
}

/// The toolchain of a compiler of MSVC that was seen.
pub open spec fn cl_at(t: MsvcTools, v: int, h: int, i: int) -> ToolchainView {
    let version = t.versions->0@[v];
    let host = version.hosts->0@[h];
    cl_toolchain(version.name@, opt_text(t.generator), host.name@, host.targets->0@[i])
}

/// Every compiler of MSVC in the latest version of an installation's tools is found as what it
/// is.
pub proof fn law_msvc_found(tools: Seq<MsvcTools>, k: int, v: int, h: int, i: int)
    requires
        0 <= k < tools.len(),
        cl_seen(tools[k], v, h, i),
    ensures
        msvc_found(tools).contains(cl_at(tools[k], v, h, i)),
    decreases tools.len(),
{
    let init = tools.drop_last();
    let t = cl_at(tools[k], v, h, i);
    lemma_both(msvc_found(init), msvc_tools_found(tools.last()), t);
    if k < init.len() {
        assert(init[k] == tools[k]);
        law_msvc_found(init, k, v, h, i);
    } else {
        let versions = tools[k].versions->0@;
        lemma_latest_unique(versions, v, choose|j: int| latest_at(versions, j));
        lemma_hosts_found(
            versions[v].name@,
            opt_text(tools[k].generator),
            versions[v].hosts->0@,
            h,
            i,
        );
    }
}

proof fn lemma_targets_real(
    version: Seq<char>,
    generator: Option<Seq<char>>,
    host: Seq<char>,
    targets: Seq<MsvcTarget>,
    t: ToolchainView,
) -> (i: int)
    requires
        msvc_targets_found(version, generator, host, targets).contains(t),
    ensures
        0 <= i < targets.len(),
        targets[i].is_dir,
        targets[i].has_cl,
        t == cl_toolchain(version, generator, host, targets[i]),
    decreases targets.len(),
{
    let init = targets.drop_last();
    let before = msvc_targets_found(version, generator, host, init);
    if targets.len() == 0 {
        0
    } else {
        let last = targets.last();
        lemma_more(before, cl_toolchain(version, generator, host, last), t);
        if last.is_dir && last.has_cl && t == cl_toolchain(version, generator, host, last) {
            targets.len() - 1
        } else {
            let i = lemma_targets_real(version, generator, host, init, t);
            assert(init[i] == targets[i]);
            i
        }
    }
}

proof fn lemma_hosts_real(
    version: Seq<char>,
    generator: Option<Seq<char>>,
    hosts: Seq<MsvcHost>,
    t: ToolchainView,
) -> (r: (int, int))
    requires
        msvc_hosts_found(version, generator, hosts).contains(t),
    ensures
        0 <= r.0 < hosts.len(),
        hosts[r.0].is_dir,
        hosts[r.0].targets is Some,
        0 <= r.1 < hosts[r.0].targets->0@.len(),
        hosts[r.0].targets->0@[r.1].is_dir,
        hosts[r.0].targets->0@[r.1].has_cl,
        t == cl_toolchain(version, generator, hosts[r.0].name@, hosts[r.0].targets->0@[r.1]),
    decreases hosts.len(),
{
    let init = hosts.drop_last();
    let before = msvc_hosts_found(version, generator, init);
    if hosts.len() == 0 {
        (0, 0)
    } else {
        let last = hosts.last();
        let here = if last.is_dir && last.targets is Some {
            msvc_targets_found(version, generator, last.name@, last.targets->0@)
        } else {
            Seq::<ToolchainView>::empty()
        };
        assert(msvc_hosts_found(version, generator, hosts) == before + here);
        lemma_both(before, here, t);
        if before.contains(t) {
            let (h, i) = lemma_hosts_real(version, generator, init, t);
            assert(init[h] == hosts[h]);
            (h, i)
        } else {
            let i = lemma_targets_real(version, generator, last.name@, last.targets->0@, t);
            (hosts.len() - 1, i)
        }
    }
}

/// What is found as MSVC is a compiler in the latest version of an installation's tools.
pub proof fn law_msvc_real(tools: Seq<MsvcTools>, t: ToolchainView)
    requires
        msvc_found(tools).contains(t),
    ensures
        exists|k: int, v: int, h: int, i: int|
            0 <= k < tools.len() && #[trigger] cl_seen(tools[k], v, h, i) && t == cl_at(
                tools[k],
                v,
                h,
                i,
            ),
    decreases tools.len(),
{
    let init = tools.drop_last();
    if tools.len() > 0 {
        let last = tools[tools.len() - 1];
        lemma_both(msvc_found(init), msvc_tools_found(last), t);
        if msvc_found(init).contains(t) {
            law_msvc_real(init, t);
            let (k, v, h, i) = choose|k: int, v: int, h: int, i: int|
                0 <= k < init.len() && #[trigger] cl_seen(init[k], v, h, i) && t == cl_at(
                    init[k],
                    v,
                    h,
                    i,
                );
            assert(tools[k] == init[k]);
            assert(cl_seen(tools[k], v, h, i));
        } else {
            let versions = last.versions->0@;
            let v = choose|j: int| latest_at(versions, j);
            let (h, i) = lemma_hosts_real(
                versions[v].name@,
                opt_text(last.generator),
                versions[v].hosts->0@,
                t,
            );
            assert(cl_seen(tools[tools.len() - 1], v, h, i));
        }
    }
}

// ---------------------------------------------------------------------------
// The search path
// ---------------------------------------------------------------------------

/// A compiler on the search path that was seen: a file with the name of a compiler of this
/// vendor, which prints this version as that vendor's compilers do.
pub open spec fn compiler_seen(f: PathFile, vendor: Vendor, version: Seq<char>) -> bool {
    &&& f.is_file
    &&& f.name is Some
    &&& f.output is Some
    &&& kind_of_stem(lowered(without_suffixes(f.name->0@, ".exe"@))) == Some(vendor)
    &&& vendor_version(vendor, f.output->0@) == Some(version)
}

/// The toolchain of a compiler on the search path. GCC and Clang go with the C++ compiler
/// beside them, and on Windows with the makefiles of MinGW where they lie in a directory of
/// MinGW or MSYS beside its make.
pub open spec fn searched_toolchain(
    f: PathFile,
    vendor: Vendor,
    version: Seq<char>,
    windows: bool,
) -> ToolchainView {
    let low = lowered(f.path@);
    ToolchainView {
        id: match vendor {
            Vendor::Gcc => "gcc"@,
            Vendor::Clang => "clang"@,
            Vendor::ClangCl => "clang-cl"@,
        },
        name: match vendor {
            Vendor::Gcc => "GCC"@,
            Vendor::Clang => "Clang"@,
            Vendor::ClangCl => "Clang-cl"@,
        },
        version,
        path: f.path@,
        cxx: if vendor == Vendor::ClangCl {
            Some(f.path@)
        } else if cxx_sibling_of(vendor, f.name->0@) is Some {
            opt_text(f.sibling)
        } else {
            None
        },
        generator: if windows && vendor != Vendor::ClangCl && f.has_make && (contains_text(
            low,
            "mingw"@,
        ) || contains_text(low, "msys"@)) {
            Some("MinGW Makefiles"@)
        } else {
            None
        },
        arch: None,
        triple: target_in(f.output->0@),
        toolset: None,
    }
}

/// A directory of the search path that can be read and is none of an editor.
pub open spec fn open_dir(d: PathDir) -> bool {
    &&& d.files is Some
    &&& !contains_text(lowered(d.path@), ".vscode"@)
    &&& !contains_text(lowered(d.path@), "extensions"@)
}

proof fn lemma_files_found(
    files: Seq<PathFile>,
    i: int,
    vendor: Vendor,
    version: Seq<char>,
    windows: bool,
)
    requires
        0 <= i < files.len(),
        compiler_seen(files[i], vendor, version),
    ensures
        path_files_found(files, windows).contains(
            searched_toolchain(files[i], vendor, version, windows),
        ),
    decreases files.len(),
{
    let init = files.drop_last();
    let before = path_files_found(init, windows);
    let t = searched_toolchain(files[i], vendor, version, windows);
    if i < init.len() {
        assert(init[i] == files[i]);
        lemma_files_found(init, i, vendor, version, windows);
        match crate::search_path::path_file_found(files.last(), windows) {
            Some(x) => lemma_more(before, x, t),
            None => {},
        }
    } else {
        assert(crate::search_path::path_file_found(files.last(), windows) == Some(t));
        lemma_more(before, t, t);
    }
}

/// Every compiler in a directory of the search path that tells its version is found as what it
/// is.
pub proof fn law_path_found(
    dirs: Seq<PathDir>,
    d: int,
    i: int,
    vendor: Vendor,
    version: Seq<char>,
    windows: bool,
)
    requires
        0 <= d < dirs.len(),
        open_dir(dirs[d]),
        0 <= i < dirs[d].files->0@.len(),
        compiler_seen(dirs[d].files->0@[i], vendor, version),
    ensures
        path_found(dirs, windows).contains(
            searched_toolchain(dirs[d].files->0@[i], vendor, version, windows),
        ),
    decreases dirs.len(),
{
    let init = dirs.drop_last();
    let last = dirs.last();
    let before = path_found(init, windows);
    let t = searched_toolchain(dirs[d].files->0@[i], vendor, version, windows);
    let here = if open_dir(last) {
        path_files_found(last.files->0@, windows)
    } else {
        Seq::<ToolchainView>::empty()
    };
    assert(path_found(dirs, windows) == before + here);
    lemma_both(before, here, t);
    if d < init.len() {
        assert(init[d] == dirs[d]);
        law_path_found(init, d, i, vendor, version, windows);
    } else {
        lemma_files_found(last.files->0@, i, vendor, version, windows);
    }
}

proof fn lemma_files_real(files: Seq<PathFile>, windows: bool, t: ToolchainView) -> (r: (
    int,
    Vendor,
))
    requires
        path_files_found(files, windows).contains(t),
    ensures
        0 <= r.0 < files.len(),
        compiler_seen(files[r.0], r.1, t.version),
        t == searched_toolchain(files[r.0], r.1, t.version, windows),
    decreases files.len(),
{
    let init = files.drop_last();
    let before = path_files_found(init, windows);
    if files.len() == 0 {
        (0, Vendor::Gcc)
    } else {
        let last = files.last();
        let x = crate::search_path::path_file_found(last, windows);
        if x is Some {
            lemma_more(before, x->0, t);
        }
        if x == Some(t) {
            let vendor = crate::search_path::file_vendor(last)->0;
            (files.len() - 1, vendor)
        } else {
            let (i, vendor) = lemma_files_real(init, windows, t);
            assert(init[i] == files[i]);
            (i, vendor)
        }
    }
}

/// The compiler `i` of the directory `d` of the search path was seen, and this is its toolchain.
pub open spec fn compiler_at(
    dirs: Seq<PathDir>,
    d: int,
    i: int,
    vendor: Vendor,
    windows: bool,
    t: ToolchainView,
) -> bool {
    &&& 0 <= d < dirs.len()
    &&& open_dir(dirs[d])
    &&& 0 <= i < dirs[d].files->0@.len()
    &&& compiler_seen(dirs[d].files->0@[i], vendor, t.version)
    &&& t == searched_toolchain(dirs[d].files->0@[i], vendor, t.version, windows)
}

/// What is found on the search path is a compiler there that tells its version.
pub proof fn law_path_real(dirs: Seq<PathDir>, windows: bool, t: ToolchainView)
    requires
        path_found(dirs, windows).contains(t),
    ensures
        exists|d: int, i: int, vendor: Vendor| #[trigger]
            compiler_at(dirs, d, i, vendor, windows, t),
    decreases dirs.len(),
{
    let init = dirs.drop_last();
    if dirs.len() > 0 {
        let last = dirs.last();
        let before = path_found(init, windows);
        let here = if open_dir(last) {
            path_files_found(last.files->0@, windows)
        } else {
            Seq::<ToolchainView>::empty()
        };
        assert(path_found(dirs, windows) == before + here);
        lemma_both(before, here, t);
        if before.contains(t) {
            law_path_real(init, windows, t);
            let (d, i, vendor) = choose|d: int, i: int, vendor: Vendor| #[trigger]
                compiler_at(init, d, i, vendor, windows, t);
            assert(init[d] == dirs[d]);
            assert(compiler_at(dirs, d, i, vendor, windows, t));
        } else {
            let (i, vendor) = lemma_files_real(last.files->0@, windows, t);
            assert(compiler_at(dirs, dirs.len() - 1, i, vendor, windows, t));
        }
    }
}

// ---------------------------------------------------------------------------
// The whole scan
// ---------------------------------------------------------------------------

/// What is found at a known place, or on the search path, is in the list before copies go.
proof fn lemma_all_found(host: HostView, windows: bool, t: ToolchainView)
    ensures
        windows && (mingw_found(host.mingw@).contains(t) || llvm_found(host.llvm@).contains(t)
            || msvc_found(host.msvc@).contains(t)) ==> listed(host_found(host, windows), t.path),
        path_found(host.path@, windows).contains(t) ==> listed(host_found(host, windows), t.path),
{
    let known = if windows {
        known_found(host)
    } else {
        Seq::<ToolchainView>::empty()
    };
    let path = path_found(host.path@, windows);
    let two = mingw_found(host.mingw@) + llvm_found(host.llvm@);
    lemma_both(mingw_found(host.mingw@), llvm_found(host.llvm@), t);
    lemma_both(two, msvc_found(host.msvc@), t);
    lemma_both(known, path, t);
    if (known + path).contains(t) {
        lemma_kept(known + path, t);
    }
}

/// On Windows the scan misses no GCC at the usual places of MinGW that tells its version.
pub proof fn law_scan_lists_mingw(host: HostView, i: int, version: Seq<char>)
    requires
        0 <= i < host.mingw@.len(),
        tells_version(host.mingw@[i], version),
    ensures
        listed(host_found(host, true), host.mingw@[i].path@),
{
    law_mingw_found(host.mingw@, i, version);
    lemma_all_found(host, true, gnu_toolchain("gcc"@, "GCC"@, host.mingw@[i], version));
}

/// On Windows the scan misses no Clang inside Visual Studio that tells its version.
pub proof fn law_scan_lists_llvm(host: HostView, i: int, version: Seq<char>)
    requires
        0 <= i < host.llvm@.len(),
    ensures
        tells_version(host.llvm@[i].clang, version) ==> listed(
            host_found(host, true),
            host.llvm@[i].clang.path@,
        ),
        tells_version(host.llvm@[i].clang_cl, version) ==> listed(
            host_found(host, true),
            host.llvm@[i].clang_cl.path@,
        ),
{
    let t = host.llvm@[i];
    law_llvm_found(host.llvm@, i, version);
    lemma_all_found(host, true, gnu_toolchain("clang"@, "Clang"@, t.clang, version));
    lemma_all_found(host, true, driver_toolchain(t, version));
}

/// On Windows the scan misses no compiler of the latest MSVC of an installation.
pub proof fn law_scan_lists_msvc(host: HostView, k: int, v: int, h: int, i: int)
    requires
        0 <= k < host.msvc@.len(),
        cl_seen(host.msvc@[k], v, h, i),
    ensures
        listed(
            host_found(host, true),
            host.msvc@[k].versions->0@[v].hosts->0@[h].targets->0@[i].cl_path@,
        ),
{
    law_msvc_found(host.msvc@, k, v, h, i);
    lemma_all_found(host, true, cl_at(host.msvc@[k], v, h, i));
}

/// On every platform the scan misses no compiler on the search path that tells its version.
pub proof fn law_scan_lists_path(
    host: HostView,
    windows: bool,
    d: int,
    i: int,
    vendor: Vendor,
    version: Seq<char>,
)
    requires
        0 <= d < host.path@.len(),
        open_dir(host.path@[d]),
        0 <= i < host.path@[d].files->0@.len(),
        compiler_seen(host.path@[d].files->0@[i], vendor, version),
    ensures
        listed(host_found(host, windows), host.path@[d].files->0@[i].path@),
{
    law_path_found(host.path@, d, i, vendor, version, windows);
    lemma_all_found(
        host,
        windows,
        searched_toolchain(host.path@[d].files->0@[i], vendor, version, windows),
    );
}

/// The scan makes nothing up: each toolchain is one that was found at a known place on Windows
/// or on the search path, and no two have the same path.
pub proof fn law_scan_makes_nothing_up(host: HostView, windows: bool, i: int, j: int)
    requires
        0 <= i < host_found(host, windows).len(),
        0 <= j < host_found(host, windows).len(),
    ensures
        ({
            let t = host_found(host, windows)[i];
            ||| windows && mingw_found(host.mingw@).contains(t)
            ||| windows && llvm_found(host.llvm@).contains(t)
            ||| windows && msvc_found(host.msvc@).contains(t)
            ||| path_found(host.path@, windows).contains(t)
        }),
        i != j ==> lowered(host_found(host, windows)[i].path) != lowered(
            host_found(host, windows)[j].path,
        ),
{
    let known = if windows {
        known_found(host)
    } else {
        Seq::<ToolchainView>::empty()
    };
    let path = path_found(host.path@, windows);
    lemma_deduplicated(known + path);
    let t = host_found(host, windows)[i];
    assert((known + path).contains(deduplicated(known + path)[i]));
    lemma_both(known, path, t);
    lemma_both(mingw_found(host.mingw@), llvm_found(host.llvm@), t);
    lemma_both(mingw_found(host.mingw@) + llvm_found(host.llvm@), msvc_found(host.msvc@), t);
    if i < j {
        assert(lowered(deduplicated(known + path)[i].path) != lowered(
            deduplicated(known + path)[j].path,
        ));
    } else if j < i {
        assert(lowered(deduplicated(known + path)[j].path) != lowered(
            deduplicated(known + path)[i].path,
        ));
    }
}

/// A toolchain at a known place comes before those on the search path: the first with its path
/// is listed as it was found there, whatever the search path holds.
pub proof fn law_known_places_first(host: HostView, i: int)
    requires
        0 <= i < known_found(host).len(),
        forall|k: int|
            0 <= k < i ==> lowered((#[trigger] known_found(host)[k]).path) != lowered(
                known_found(host)[i].path,
            ),
    ensures
        host_found(host, true).contains(known_found(host)[i]),
{
    let known = known_found(host);
    let all = known + path_found(host.path@, true);
    assert(all[i] == known[i]);
    assert forall|k: int| 0 <= k < i implies lowered((#[trigger] all[k]).path) != lowered(
        all[i].path,
    ) by {
        assert(all[k] == known[k]);
    }
    law_copies(all, i);
}

} // verus!
