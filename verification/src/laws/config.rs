//! Laws on the settings and on the builds that are remembered.
use vstd::prelude::*;

use crate::config::{
    build_at, history_bound, key_of, lemma_pruned_all, lemma_remembered, normalized, pruned,
    AppConfig, BuildView,
};
use crate::platform::lowered;

verus! {

/// The key of a workspace is its path, character by character, with slashes for backslashes; on
/// Windows it is that in lower case.
pub proof fn law_key(dir: Seq<char>)
    ensures
        key_of(dir, false).len() == dir.len(),
        forall|i: int|
            0 <= i < dir.len() ==> #[trigger] key_of(dir, false)[i] == if dir[i] == '\\' {
                '/'
            } else {
                dir[i]
            },
        key_of(dir, true) == lowered(key_of(dir, false)),
{
}

/// A path with slashes alone is its own key where case counts.
pub proof fn law_key_stays(dir: Seq<char>)
    requires
        !dir.contains('\\'),
    ensures
        key_of(dir, false) == dir,
{
    assert forall|i: int| 0 <= i < dir.len() implies dir[i] != '\\' by {
        if dir[i] == '\\' {
            assert(dir.contains('\\'));
        }
    }
    assert(key_of(dir, false) =~= dir);
}

/// The history is cut to its limit, or to one workspace where that is zero, and not further.
/// What is kept is kept as it was, and was used no earlier than anything that is taken out.
pub proof fn law_history(
    before: Map<Seq<char>, BuildView>,
    limit: usize,
    after: Map<Seq<char>, BuildView>,
    kept: Seq<char>,
    gone: Seq<char>,
)
    requires
        before.dom().finite(),
        pruned(before, history_bound(limit), after),
    ensures
        limit > 0 && before.dom().len() > limit ==> after.dom().len() == limit,
        limit == 0 && before.dom().len() > 1 ==> after.dom().len() == 1,
        before.dom().len() <= limit || before.dom().len() <= 1 ==> after == before,
        after.contains_key(kept) ==> before.contains_key(kept) && after[kept] == before[kept],
        after.contains_key(kept) && before.contains_key(gone) && !after.contains_key(gone)
            ==> before[gone].last_used <= before[kept].last_used,
{
    if before.dom().len() <= history_bound(limit) {
        lemma_pruned_all(before, history_bound(limit), after);
    }
    if after.contains_key(kept) {
        assert(after.dom().contains(kept));
        assert(before.contains_key(kept) && after[kept] == before[kept]);
    }
}

/// What is remembered of a workspace that was used last is the build type, the target and the
/// time of that build, under every way to write the separators of its path.
pub proof fn law_build_comes_back(
    before: Map<Seq<char>, BuildView>,
    dir: Seq<char>,
    again: Seq<char>,
    build_type: Seq<char>,
    target: Seq<char>,
    now: u64,
    limit: usize,
    windows: bool,
    after: Map<Seq<char>, BuildView>,
)
    requires
        before.dom().finite(),
        pruned(
            before.insert(key_of(dir, windows), build_at(build_type, target, now)),
            history_bound(limit),
            after,
        ),
        forall|k: Seq<char>| before.contains_key(k) ==> (#[trigger] before[k]).last_used < now,
        again.len() == dir.len(),
        forall|i: int|
            0 <= i < dir.len() ==> #[trigger] again[i] == dir[i] || (again[i] == '/' && dir[i]
                == '\\') || (again[i] == '\\' && dir[i] == '/'),
    ensures
        after.contains_key(key_of(again, windows)),
        after[key_of(again, windows)].build_type == build_type,
        after[key_of(again, windows)].target == target,
        after[key_of(again, windows)].last_used == now,
{
    crate::config::lemma_key_ignores_separators(again, dir, windows);
    lemma_remembered(
        before,
        key_of(dir, windows),
        build_at(build_type, target, now),
        limit,
        after,
    );
}

/// Remembering one workspace forgets nothing of another while there is room.
pub proof fn law_others_stay(
    before: Map<Seq<char>, BuildView>,
    key: Seq<char>,
    build: BuildView,
    other: Seq<char>,
    limit: usize,
    after: Map<Seq<char>, BuildView>,
)
    requires
        before.dom().finite(),
        pruned(before.insert(key, build), history_bound(limit), after),
        before.dom().len() < limit,
        other != key,
    ensures
        after.contains_key(other) <==> before.contains_key(other),
        before.contains_key(other) ==> after[other] == before[other],
{
    let all = before.insert(key, build);
    assert(all.dom() =~= before.dom().insert(key));
    lemma_pruned_all(all, history_bound(limit), after);
}

/// Settings that were made stay as they were made; jobs that were not are as many as there are
/// cores, and room that was not is for 200 workspaces. The workspaces all stay where there is
/// room, and else as many as there is room for.
pub proof fn law_normalized(before: AppConfig, host_cores: usize, after: AppConfig)
    requires
        before.workspace_builds@.dom().finite(),
        normalized(before, host_cores, after),
    ensures
        before.parallel_jobs > 0 ==> after.parallel_jobs == before.parallel_jobs,
        before.parallel_jobs == 0 ==> after.parallel_jobs == host_cores,
        before.workspace_history_limit > 0 ==> after.workspace_history_limit
            == before.workspace_history_limit,
        before.workspace_history_limit == 0 ==> after.workspace_history_limit == 200,
        before.workspace_builds@.dom().len() <= after.workspace_history_limit
            ==> after.workspace_builds@ == before.workspace_builds@,
        before.workspace_builds@.dom().len() > after.workspace_history_limit
            ==> after.workspace_builds@.dom().len() == after.workspace_history_limit,
{
    let bound = after.workspace_history_limit as nat;
    if before.workspace_builds@.dom().len() <= bound {
        lemma_pruned_all(before.workspace_builds@, bound, after.workspace_builds@);
    }
}

} // verus!
