//! The whole scan of a host for toolchains.
use vstd::prelude::*;

use crate::number::{decimal, to_decimal};
use crate::platform::{lowered, to_lowercase};
use crate::probe::{
    latest_at, llvm_found, llvm_tools_found, mingw_found, msvc_found, msvc_hosts_found,
    msvc_targets_found, msvc_tools_found, probe_llvm, probe_mingw, probe_msvc, CompilerFile,
    LlvmTools, MsvcHost, MsvcTarget, MsvcTools,
};
use crate::search_path::{path_files_found, path_found, probe_path, searched, PathDir, PathFile};
use crate::text::{opt_text, position};
use crate::toolchain::{copy_toolchain, toolchain_views, Toolchain, ToolchainView};
use crate::visual_studio::{
    base_found, bases_found, dir_found, instance_of_entry, instances_of_entries,
    lemma_generators_of_studio, subdirs_found, VsBase, VsDir, VsInstanceView, VsSubdir, VsWhereEntry,
};

verus! {

// ---------------------------------------------------------------------------
// Copies
// ---------------------------------------------------------------------------

/// Whether some toolchain of `l` has the path `p`, without regard to case.
pub open spec fn has_path(l: Seq<ToolchainView>, p: Seq<char>) -> bool {
    exists|k: int| 0 <= k < l.len() && lowered((#[trigger] l[k]).path) == lowered(p)
}

/// The toolchains of `l`, of those with the same path without regard to case only the first.
pub open spec fn deduplicated(l: Seq<ToolchainView>) -> Seq<ToolchainView>
    decreases l.len(),
{
    if l.len() == 0 {
        l
    } else {
        let before = deduplicated(l.drop_last());
        if has_path(before, l.last().path) {
            before
        } else {
            before.push(l.last())
        }
    }
}

/// No two toolchains that are left have the same path, every path is left, and every
/// toolchain that is left was there.
pub proof fn lemma_deduplicated(l: Seq<ToolchainView>)
    ensures
        forall|i: int, j: int|
            0 <= i < j < deduplicated(l).len() ==> lowered((#[trigger] deduplicated(l)[i]).path)
                != lowered((#[trigger] deduplicated(l)[j]).path),
        forall|p: Seq<char>| #[trigger] has_path(deduplicated(l), p) == has_path(l, p),
        forall|i: int|
            0 <= i < deduplicated(l).len() ==> l.contains(#[trigger] deduplicated(l)[i]),
    decreases l.len(),
{
    if l.len() > 0 {
        let init = l.drop_last();
        let before = deduplicated(init);
        let d = deduplicated(l);
        lemma_deduplicated(init);
        assert forall|p: Seq<char>| #[trigger] has_path(d, p) == has_path(l, p) by {
            if has_path(l, p) {
                let k = choose|k: int| 0 <= k < l.len() && lowered((#[trigger] l[k]).path) == lowered(p);
                if k < init.len() {
                    assert(init[k] == l[k]);
                    assert(has_path(init, p) && has_path(before, p));
                    let j = choose|j: int|
                        0 <= j < before.len() && lowered((#[trigger] before[j]).path) == lowered(p);
                    assert(d[j] == before[j]);
                } else if has_path(before, l.last().path) {
                    let j = choose|j: int|
                        0 <= j < before.len() && lowered((#[trigger] before[j]).path) == lowered(
                            l.last().path,
                        );
                    assert(d[j] == before[j]);
                } else {
                    assert(d[d.len() - 1] == l.last());
                }
            }
            if has_path(d, p) {
                let j = choose|j: int| 0 <= j < d.len() && lowered((#[trigger] d[j]).path) == lowered(p);
                if j < before.len() {
                    assert(before[j] == d[j]);
                    assert(has_path(before, p) && has_path(init, p));
                    let k = choose|k: int|
                        0 <= k < init.len() && lowered((#[trigger] init[k]).path) == lowered(p);
                    assert(l[k] == init[k]);
                } else {
                    assert(l[l.len() - 1] == d[j]);
                }
            }
        }
        assert forall|i: int| 0 <= i < d.len() implies l.contains(#[trigger] d[i]) by {
            if i < before.len() {
                assert(before[i] == d[i]);
                let k = choose|k: int| 0 <= k < init.len() && init[k] == before[i];
                assert(l[k] == d[i]);
            } else {
                assert(l[l.len() - 1] == d[i]);
            }
        }
    }
}

/// Taking out copies a second time changes nothing.
pub proof fn lemma_deduplicated_twice(l: Seq<ToolchainView>)
    ensures
        deduplicated(deduplicated(l)) == deduplicated(l),
    decreases l.len(),
{
    if l.len() > 0 {
        let before = deduplicated(l.drop_last());
        lemma_deduplicated_twice(l.drop_last());
        if !has_path(before, l.last().path) {
            assert(before.push(l.last()).drop_last() == before);
        }
    }
}

/// Takes out of `list` all toolchains but the first with the same path, without regard to
/// case.
pub fn dedup_toolchains(list: &mut Vec<Toolchain>)
    ensures
        toolchain_views(final(list)@) == deduplicated(toolchain_views(old(list)@)),
{
    let ghost all = toolchain_views(list@);
    let mut kept: Vec<Toolchain> = Vec::new();
    let mut seen: Vec<String> = Vec::new();
    let mut i: usize = 0;
    proof {
        assert(toolchain_views(kept@) =~= deduplicated(all.take(0)));
    }
    while i < list.len()
        invariant
            i <= list@.len(),
            all == toolchain_views(list@),
            toolchain_views(kept@) == deduplicated(all.take(i as int)),
            seen@.len() == kept@.len(),
            forall|k: int| 0 <= k < seen@.len() ==> (#[trigger] seen@[k])@ == lowered(kept@[k].path@),
        decreases list@.len() - i,
    {
        let ghost before = kept@;
        let low = to_lowercase(list[i].path.as_str());
        proof {
            assert(all.take(i + 1).drop_last() == all.take(i as int));
            assert(all.take(i + 1).last() == list@[i as int]@);
        }
        match position(&seen, low.as_str()) {
            Some(k) => {
                proof {
                    assert(seen@[k as int]@ == low@);
                    assert(lowered(toolchain_views(kept@)[k as int].path) == low@);
                    assert(has_path(toolchain_views(kept@), list@[i as int].path@));
                }
            },
            None => {
                proof {
                    let p = |k: int| seen@[k]@ == low@;
                    assert forall|k: int|
                        0 <= k < toolchain_views(kept@).len() implies lowered(
                        (#[trigger] toolchain_views(kept@)[k]).path,
                    ) != low@ by {
                        assert(!p(k));
                        assert(seen@[k]@ == lowered(kept@[k].path@));
                    }
                    assert(!has_path(toolchain_views(kept@), list@[i as int].path@));
                }
                let tc = copy_toolchain(&list[i]);
                kept.push(tc);
                seen.push(low);
                proof {
                    assert(toolchain_views(kept@) =~= toolchain_views(before).push(tc@));
                }
            },
        }
        i = i + 1;
    }
    proof {
        assert(all.take(i as int) == all);
    }
    *list = kept;
}

// ---------------------------------------------------------------------------
// The whole scan
// ---------------------------------------------------------------------------

/// What was seen on a host.
pub struct HostView {
    pub mingw: Vec<CompilerFile>,
    pub llvm: Vec<LlvmTools>,
    pub msvc: Vec<MsvcTools>,
    pub path: Vec<PathDir>,
}

/// The toolchains at the known places of Windows.
pub open spec fn known_found(host: HostView) -> Seq<ToolchainView> {
    mingw_found(host.mingw@) + llvm_found(host.llvm@) + msvc_found(host.msvc@)
}

/// The toolchains of a host: those at known places, which only Windows has, and those on the
/// search path, without copies.
pub open spec fn host_found(host: HostView, windows: bool) -> Seq<ToolchainView> {
    let known = if windows {
        known_found(host)
    } else {
        Seq::<ToolchainView>::empty()
    };
    deduplicated(known + path_found(host.path@, windows))
}

/// The toolchains of a host.
pub fn scan_toolchains(host: &HostView, windows: bool) -> (r: Vec<Toolchain>)
    ensures
        toolchain_views(r@) == host_found(*host, windows),
{
    let mut found: Vec<Toolchain> = Vec::new();
    proof {
        assert(toolchain_views(found@) =~= Seq::<ToolchainView>::empty());
    }
    if windows {
        let mut mingw = probe_mingw(&host.mingw);
        let mut llvm = probe_llvm(&host.llvm);
        let mut msvc = probe_msvc(&host.msvc);
        let ghost (a, b, c) = (mingw@, llvm@, msvc@);
        found.append(&mut mingw);
        found.append(&mut llvm);
        found.append(&mut msvc);
        proof {
            assert(toolchain_views(found@) =~= toolchain_views(a) + toolchain_views(b)
                + toolchain_views(c));
        }
    }
    let ghost known = found@;
    let mut path = probe_path(&host.path, windows);
    let ghost p = path@;
    found.append(&mut path);
    proof {
        assert(toolchain_views(found@) =~= toolchain_views(known) + toolchain_views(p));
    }
    dedup_toolchains(&mut found);
    found
}

/// The parts of a scan.
#[derive(Clone, Copy, Debug, PartialEq, Eq, Structural)]
pub enum ScanStage {
    Mingw,
    Llvm,
    Msvc,
    Path,
}

/// The parts of a scan, in their order.
pub open spec fn stages_of(windows: bool) -> Seq<ScanStage> {
    if windows {
        seq![ScanStage::Mingw, ScanStage::Llvm, ScanStage::Msvc, ScanStage::Path]
    } else {
        seq![ScanStage::Path]
    }
}

/// The parts of a scan, in their order.
pub fn scan_stages(windows: bool) -> (r: Vec<ScanStage>)
    ensures
        r@ == stages_of(windows),
{
    let mut out: Vec<ScanStage> = Vec::new();
    if windows {
        out.push(ScanStage::Mingw);
        out.push(ScanStage::Llvm);
        out.push(ScanStage::Msvc);
    }
    out.push(ScanStage::Path);
    proof {
        assert(out@ =~= stages_of(windows));
    }
    out
}

/// What is told the user when a part of a scan begins.
pub open spec fn stage_text(stage: ScanStage) -> Seq<char> {
    match stage {
        ScanStage::Mingw => "Scanning toolchains: MinGW GCC..."@,
        ScanStage::Llvm => "Scanning toolchains: LLVM/Clang..."@,
        ScanStage::Msvc => "Scanning toolchains: MSVC..."@,
        ScanStage::Path => "Scanning toolchains: PATH fallback..."@,
    }
}

/// What is told the user when a part of a scan begins.
pub fn stage_message(stage: ScanStage) -> (r: String)
    ensures
        r@ == stage_text(stage),
{
    match stage {
        ScanStage::Mingw => "Scanning toolchains: MinGW GCC...".to_owned(),
        ScanStage::Llvm => "Scanning toolchains: LLVM/Clang...".to_owned(),
        ScanStage::Msvc => "Scanning toolchains: MSVC...".to_owned(),
        ScanStage::Path => "Scanning toolchains: PATH fallback...".to_owned(),
    }
}

/// What is told the user when a scan has ended with `found` toolchains.
pub fn scan_done_message(found: usize) -> (r: String)
    ensures
        r@ == "Toolchain scan done: "@ + decimal(found as nat) + " found"@,
{
    let mut out = "Toolchain scan done: ".to_owned();
    out.append(to_decimal(found as u64).as_str());
    out.append(" found");
    out
}

// ---------------------------------------------------------------------------
// Generators and compilers
// ---------------------------------------------------------------------------

/// A generator is none or one of Visual Studio.
pub open spec fn studio_or_none(g: Option<Seq<char>>) -> bool {
    g matches Some(name) ==> "Visual Studio"@.is_prefix_of(name)
}

/// The generator goes with the compiler: makefiles of MinGW with GCC and Clang, Visual
/// Studio with MSVC and with Clang's driver for its options.
pub open spec fn well_matched(tc: ToolchainView) -> bool {
    ||| (tc.id == "gcc"@ || tc.id == "clang"@) && (tc.generator is None || tc.generator == Some(
        "MinGW Makefiles"@,
    ))
    ||| (tc.id == "clang-cl"@ || tc.id == "msvc"@) && studio_or_none(tc.generator)
}

/// The generator is the one that goes with the compiler at a known place: makefiles of MinGW
/// for GCC and Clang, Visual Studio for MSVC and for Clang's driver for its options. Only where
/// the generator of an installation is not `known` may the latter have none.
pub open spec fn fits(tc: ToolchainView, known: bool) -> bool {
    ||| (tc.id == "gcc"@ || tc.id == "clang"@) && tc.generator == Some("MinGW Makefiles"@)
    ||| (tc.id == "clang-cl"@ || tc.id == "msvc"@) && studio_or_none(tc.generator) && (known
        ==> tc.generator is Some)
}

/// Every toolchain of a list has the generator that goes with it.
pub open spec fn all_fit(l: Seq<ToolchainView>, known: bool) -> bool {
    forall|i: int| 0 <= i < l.len() ==> fits(#[trigger] l[i], known)
}

/// A generator is one of Visual Studio, or none where it need not be `known`.
pub open spec fn studio_generator(g: Option<Seq<char>>, known: bool) -> bool {
    studio_or_none(g) && (known ==> g is Some)
}

/// The generators of the installations that were seen are those of Visual Studio, each known.
pub open spec fn known_host(host: HostView) -> bool {
    &&& forall|i: int|
        0 <= i < host.llvm@.len() ==> studio_generator(
            opt_text((#[trigger] host.llvm@[i]).generator),
            true,
        )
    &&& forall|i: int|
        0 <= i < host.msvc@.len() ==> studio_generator(
            opt_text((#[trigger] host.msvc@[i]).generator),
            true,
        )
}

/// At the known places every GCC and Clang builds with the makefiles of MinGW, and MSVC and
/// Clang's driver for its options build with Visual Studio, where the generators of the
/// installations are known.
pub proof fn lemma_known_places_fit(host: HostView)
    requires
        known_host(host),
    ensures
        all_fit(known_found(host), true),
{
    lemma_mingw_fit(host.mingw@, true);
    lemma_llvm_fit(host.llvm@, true);
    lemma_msvc_fit(host.msvc@, true);
}

/// Every generator of a list of installations is one of Visual Studio.
pub open spec fn all_studio(l: Seq<VsInstanceView>) -> bool {
    forall|i: int| 0 <= i < l.len() ==> studio_or_none((#[trigger] l[i]).generator)
}

/// Every installation that `vswhere` reports or that is found on disk has a generator of
/// Visual Studio or none.
pub proof fn lemma_instances_studio(entries: Seq<VsWhereEntry>, bases: Seq<VsBase>)
    ensures
        all_studio(instances_of_entries(entries)),
        all_studio(bases_found(bases)),
{
    lemma_entries_studio(entries);
    lemma_bases_studio(bases);
}

proof fn lemma_entries_studio(entries: Seq<VsWhereEntry>)
    ensures
        all_studio(instances_of_entries(entries)),
    decreases entries.len(),
{
    if entries.len() > 0 {
        lemma_entries_studio(entries.drop_last());
        let e = entries.last();
        let none = Seq::<char>::empty();
        if e.version is Some {
            let name = if e.display_name is Some {
                e.display_name->0@
            } else {
                none
            };
            lemma_generators_of_studio(e.version->0@, name, none);
        }
        assert(studio_or_none(instance_of_entry(e).generator));
    }
}

proof fn lemma_subdirs_studio(dirs: Seq<VsSubdir>, around: Seq<char>)
    ensures
        all_studio(subdirs_found(dirs, around)),
    decreases dirs.len(),
{
    if dirs.len() > 0 {
        lemma_subdirs_studio(dirs.drop_last(), around);
        lemma_generators_of_studio(around, around, around);
    }
}

proof fn lemma_base_studio(dirs: Seq<VsDir>, around: Seq<char>)
    ensures
        all_studio(base_found(dirs, around)),
    decreases dirs.len(),
{
    if dirs.len() > 0 {
        lemma_base_studio(dirs.drop_last(), around);
        lemma_generators_of_studio(around, around, around);
        let d = dirs.last();
        if d.children is Some {
            lemma_subdirs_studio(d.children->0@, d.name@);
        }
        assert(all_studio(dir_found(d, around)));
    }
}

proof fn lemma_bases_studio(bases: Seq<VsBase>)
    ensures
        all_studio(bases_found(bases)),
    decreases bases.len(),
{
    if bases.len() > 0 {
        lemma_bases_studio(bases.drop_last());
        let b = bases.last();
        if b.dirs is Some {
            lemma_base_studio(b.dirs->0@, b.name@);
        }
    }
}

/// Every toolchain of a list is well matched.
pub open spec fn all_well_matched(l: Seq<ToolchainView>) -> bool {
    forall|i: int| 0 <= i < l.len() ==> well_matched(#[trigger] l[i])
}

/// The installations that were seen have generators of Visual Studio or none.
pub open spec fn studio_host(host: HostView) -> bool {
    &&& forall|i: int|
        0 <= i < host.llvm@.len() ==> studio_or_none(opt_text((#[trigger] host.llvm@[i]).generator))
    &&& forall|i: int|
        0 <= i < host.msvc@.len() ==> studio_or_none(opt_text((#[trigger] host.msvc@[i]).generator))
}

/// A scan pairs no compiler with a generator that does not go with it, where the generators
/// of the installations that were seen are those of Visual Studio.
pub proof fn lemma_scan_well_matched(host: HostView, windows: bool)
    requires
        studio_host(host),
    ensures
        all_well_matched(host_found(host, windows)),
{
    lemma_mingw_fit(host.mingw@, false);
    lemma_llvm_fit(host.llvm@, false);
    lemma_msvc_fit(host.msvc@, false);
    lemma_path_matched(host.path@, windows);
    let known = if windows {
        known_found(host)
    } else {
        Seq::<ToolchainView>::empty()
    };
    assert(all_well_matched(known)) by {
        assert(all_fit(known_found(host), false));
        assert forall|i: int| 0 <= i < known.len() implies well_matched(#[trigger] known[i]) by {
            assert(fits(known[i], false));
        }
    }
    let all = known + path_found(host.path@, windows);
    assert(all_well_matched(all));
    lemma_deduplicated(all);
    assert forall|i: int| 0 <= i < host_found(host, windows).len() implies well_matched(
        #[trigger] host_found(host, windows)[i],
    ) by {
        assert(all.contains(deduplicated(all)[i]));
    }
}

proof fn lemma_mingw_fit(files: Seq<CompilerFile>, known: bool)
    ensures
        all_fit(mingw_found(files), known),
    decreases files.len(),
{
    if files.len() > 0 {
        lemma_mingw_fit(files.drop_last(), known);
    }
}

proof fn lemma_llvm_fit(tools: Seq<LlvmTools>, known: bool)
    requires
        forall|i: int|
            0 <= i < tools.len() ==> studio_generator(
                opt_text((#[trigger] tools[i]).generator),
                known,
            ),
    ensures
        all_fit(llvm_found(tools), known),
    decreases tools.len(),
{
    if tools.len() > 0 {
        let init = tools.drop_last();
        assert forall|i: int| 0 <= i < init.len() implies studio_generator(
            opt_text((#[trigger] init[i]).generator),
            known,
        ) by {
            assert(tools[i] == init[i]);
        }
        lemma_llvm_fit(init, known);
        assert(studio_generator(opt_text(tools[tools.len() - 1].generator), known));
        assert(all_fit(llvm_tools_found(tools.last()), known));
    }
}

proof fn lemma_msvc_targets_fit(
    version: Seq<char>,
    generator: Option<Seq<char>>,
    host: Seq<char>,
    targets: Seq<MsvcTarget>,
    known: bool,
)
    requires
        studio_generator(generator, known),
    ensures
        all_fit(msvc_targets_found(version, generator, host, targets), known),
    decreases targets.len(),
{
    if targets.len() > 0 {
        lemma_msvc_targets_fit(version, generator, host, targets.drop_last(), known);
    }
}

proof fn lemma_msvc_hosts_fit(
    version: Seq<char>,
    generator: Option<Seq<char>>,
    hosts: Seq<MsvcHost>,
    known: bool,
)
    requires
        studio_generator(generator, known),
    ensures
        all_fit(msvc_hosts_found(version, generator, hosts), known),
    decreases hosts.len(),
{
    if hosts.len() > 0 {
        lemma_msvc_hosts_fit(version, generator, hosts.drop_last(), known);
        let h = hosts.last();
        if h.is_dir && h.targets is Some {
            lemma_msvc_targets_fit(version, generator, h.name@, h.targets->0@, known);
        }
    }
}

proof fn lemma_msvc_fit(tools: Seq<MsvcTools>, known: bool)
    requires
        forall|i: int|
            0 <= i < tools.len() ==> studio_generator(
                opt_text((#[trigger] tools[i]).generator),
                known,
            ),
    ensures
        all_fit(msvc_found(tools), known),
    decreases tools.len(),
{
    if tools.len() > 0 {
        let init = tools.drop_last();
        assert forall|i: int| 0 <= i < init.len() implies studio_generator(
            opt_text((#[trigger] init[i]).generator),
            known,
        ) by {
            assert(tools[i] == init[i]);
        }
        lemma_msvc_fit(init, known);
        let t = tools.last();
        assert(studio_generator(opt_text(tools[tools.len() - 1].generator), known));
        if t.versions is Some {
            let versions = t.versions->0;
            if exists|i: int| latest_at(versions@, i) {
                let latest = versions@[choose|i: int| latest_at(versions@, i)];
                if latest.hosts is Some {
                    lemma_msvc_hosts_fit(
                        latest.name@,
                        opt_text(t.generator),
                        latest.hosts->0@,
                        known,
                    );
                }
            }
        }
        assert(all_fit(msvc_tools_found(t), known));
    }
}

proof fn lemma_path_files_matched(files: Seq<PathFile>, windows: bool)
    ensures
        all_well_matched(path_files_found(files, windows)),
    decreases files.len(),
{
    if files.len() > 0 {
        lemma_path_files_matched(files.drop_last(), windows);
    }
}

proof fn lemma_path_matched(dirs: Seq<PathDir>, windows: bool)
    ensures
        all_well_matched(path_found(dirs, windows)),
    decreases dirs.len(),
{
    if dirs.len() > 0 {
        lemma_path_matched(dirs.drop_last(), windows);
        let d = dirs.last();
        if searched(lowered(d.path@)) && d.files is Some {
            lemma_path_files_matched(d.files->0@, windows);
        }
    }
}

} // verus!
