//! Laws on the order in which toolchains are listed.
use vstd::prelude::*;

use crate::laws::scan::{driver_toolchain, gnu_toolchain, tells_version};
use crate::probe::{
    llvm_found, llvm_tools_found, mingw_found, msvc_found, CompilerFile, LlvmTools, MsvcTools,
};
use crate::scan::{deduplicated, has_path, host_found, known_found, HostView};
use crate::search_path::{path_found, PathDir};
use crate::toolchain::ToolchainView;

verus! {

/// A start of a start is a start.
proof fn lemma_starts(a: Seq<ToolchainView>, b: Seq<ToolchainView>, c: Seq<ToolchainView>)
    requires
        a.is_prefix_of(b),
        b.is_prefix_of(c),
    ensures
        a.is_prefix_of(c),
{
    assert forall|i: int| 0 <= i < a.len() implies a[i] == c[i] by {
        assert(a[i] == b.subrange(0, a.len() as int)[i]);
        assert(b[i] == c.subrange(0, b.len() as int)[i]);
    }
    assert(a =~= c.subrange(0, a.len() as int));
}

/// Places are gone through in their order: what one place more adds stands behind what the
/// places before it gave.
pub proof fn law_places_in_order(
    files: Seq<CompilerFile>,
    file: CompilerFile,
    clangs: Seq<LlvmTools>,
    clang: LlvmTools,
    tools: Seq<MsvcTools>,
    tool: MsvcTools,
    dirs: Seq<PathDir>,
    dir: PathDir,
    windows: bool,
)
    ensures
        mingw_found(files).is_prefix_of(mingw_found(files.push(file))),
        llvm_found(clangs).is_prefix_of(llvm_found(clangs.push(clang))),
        msvc_found(tools).is_prefix_of(msvc_found(tools.push(tool))),
        path_found(dirs, windows).is_prefix_of(path_found(dirs.push(dir), windows)),
{
    assert(files.push(file).drop_last() =~= files);
    assert(clangs.push(clang).drop_last() =~= clangs);
    assert(tools.push(tool).drop_last() =~= tools);
    assert(dirs.push(dir).drop_last() =~= dirs);
    let m = mingw_found(files.push(file));
    assert(m.subrange(0, mingw_found(files).len() as int) =~= mingw_found(files));
    let l = llvm_found(clangs.push(clang));
    assert(l.subrange(0, llvm_found(clangs).len() as int) =~= llvm_found(clangs));
    let v = msvc_found(tools.push(tool));
    assert(v.subrange(0, msvc_found(tools).len() as int) =~= msvc_found(tools));
    let p = path_found(dirs.push(dir), windows);
    assert(p.subrange(0, path_found(dirs, windows).len() as int) =~= path_found(dirs, windows));
}

/// An installation gives Clang and behind it its driver for the options of MSVC.
pub proof fn law_clang_then_driver(
    clangs: Seq<LlvmTools>,
    clang: LlvmTools,
    version: Seq<char>,
    driver_version: Seq<char>,
)
    requires
        tells_version(clang.clang, version),
        tells_version(clang.clang_cl, driver_version),
    ensures
        llvm_found(clangs.push(clang)) == llvm_found(clangs) + seq![
            gnu_toolchain("clang"@, "Clang"@, clang.clang, version),
            driver_toolchain(clang, driver_version),
        ],
{
    assert(clangs.push(clang).drop_last() =~= clangs);
    assert(llvm_tools_found(clang) =~= seq![
        gnu_toolchain("clang"@, "Clang"@, clang.clang, version),
        driver_toolchain(clang, driver_version),
    ]);
}

/// Taking copies out of a list leaves its order: what is left of a start of it starts what is
/// left of all.
pub proof fn law_copies_in_order(a: Seq<ToolchainView>, b: Seq<ToolchainView>)
    ensures
        deduplicated(a).is_prefix_of(deduplicated(a + b)),
    decreases b.len(),
{
    if b.len() == 0 {
        assert(a + b =~= a);
        assert(deduplicated(a).subrange(0, deduplicated(a).len() as int) =~= deduplicated(a));
    } else {
        let init = b.drop_last();
        law_copies_in_order(a, init);
        assert((a + b).drop_last() =~= a + init);
        let before = deduplicated(a + init);
        let all = deduplicated(a + b);
        assert(all.subrange(0, before.len() as int) =~= before);
        lemma_starts(deduplicated(a), before, all);
    }
}

/// A scan lists MinGW first, then LLVM, then MSVC, and then what the search path adds; away from
/// Windows it lists what the search path holds.
pub proof fn law_scan_order(host: HostView)
    ensures
        deduplicated(mingw_found(host.mingw@)).is_prefix_of(host_found(host, true)),
        deduplicated(mingw_found(host.mingw@) + llvm_found(host.llvm@)).is_prefix_of(
            host_found(host, true),
        ),
        deduplicated(
            mingw_found(host.mingw@) + llvm_found(host.llvm@) + msvc_found(host.msvc@),
        ).is_prefix_of(host_found(host, true)),
        host_found(host, false) == deduplicated(path_found(host.path@, false)),
{
    let m = mingw_found(host.mingw@);
    let l = llvm_found(host.llvm@);
    let v = msvc_found(host.msvc@);
    let p = path_found(host.path@, true);
    law_copies_in_order(m, l + v + p);
    assert(m + (l + v + p) =~= known_found(host) + p);
    law_copies_in_order(m + l, v + p);
    assert((m + l) + (v + p) =~= known_found(host) + p);
    law_copies_in_order(m + l + v, p);
    let q = path_found(host.path@, false);
    assert(Seq::<ToolchainView>::empty() + q =~= q);
}

/// A toolchain whose path is listed already adds nothing, and any other is added at the end.
pub proof fn law_copy_left_out(l: Seq<ToolchainView>, t: ToolchainView)
    ensures
        has_path(deduplicated(l), t.path) ==> deduplicated(l.push(t)) == deduplicated(l),
        !has_path(deduplicated(l), t.path) ==> deduplicated(l.push(t)) == deduplicated(l).push(t),
{
    assert(l.push(t).drop_last() =~= l);
}

} // verus!
