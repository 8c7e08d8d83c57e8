//! Settings that are kept between runs, and where they are kept.
use vstd::prelude::*;
use vstd::utf8::is_ascii_chars;

use crate::platform::{
    ascii_lower, epoch_seconds, join_outcome, lemma_parent_starts, lies_in, lowered, parent_outcome,
    path_join, path_parent, plain_name, plain_parent, readable_path, separator, to_lowercase,
    user_config_dir, verbatim_path,
};
use crate::string_map::StringMap;
use crate::text::{opt_text, replace_char, with_char_replaced};

verus! {

// ---------------------------------------------------------------------------
// Builds of workspaces
// ---------------------------------------------------------------------------

/// The build that was last made in a workspace.
#[derive(Clone, Debug)]
pub struct WorkspaceBuildConfig {
    pub build_type: String,
    pub target: String,
    pub last_used_unix_secs: u64,
}

/// The contents of the build that was last made in a workspace.
pub struct BuildView {
    pub build_type: Seq<char>,
    pub target: Seq<char>,
    pub last_used: u64,
}

/// The build of this type and target that was made at the time `now`.
pub open spec fn build_at(build_type: Seq<char>, target: Seq<char>, now: u64) -> BuildView {
    BuildView { build_type, target, last_used: now }
}

impl View for WorkspaceBuildConfig {
    type V = BuildView;

    open spec fn view(&self) -> BuildView {
        BuildView {
            build_type: self.build_type@,
            target: self.target@,
            last_used: self.last_used_unix_secs,
        }
    }
}

impl Default for WorkspaceBuildConfig {
    /// No build type, no target, and a use at the epoch.
    fn default() -> (r: Self)
        ensures
            r@ == (BuildView {
                build_type: Seq::<char>::empty(),
                target: Seq::<char>::empty(),
                last_used: 0,
            }),
    {
        WorkspaceBuildConfig {
            build_type: String::new(),
            target: String::new(),
            last_used_unix_secs: 0,
        }
    }
}

/// How many workspaces are remembered unless the settings say otherwise.
pub const DEFAULT_HISTORY_LIMIT: usize = 200;

/// How many workspaces are remembered unless the settings say otherwise.
pub fn default_workspace_history_limit() -> (r: usize)
    ensures
        r == DEFAULT_HISTORY_LIMIT,
{
    DEFAULT_HISTORY_LIMIT
}

/// The seconds since the epoch that a clock shows, or zero where it stands before the epoch.
pub fn seconds_or_zero(shown: Option<u64>) -> (r: u64)
    ensures
        r == match shown {
            Some(s) => s,
            None => 0,
        },
{
    match shown {
        Some(s) => s,
        None => 0,
    }
}

/// The time of the clock in seconds since the epoch, of which nothing is stated.
fn unix_now_secs() -> u64 {
    seconds_or_zero(epoch_seconds())
}

/// The key of a workspace: its path with slashes, in lower case on Windows, where case does
/// not count.
pub open spec fn key_of(dir: Seq<char>, windows: bool) -> Seq<char> {
    let slashed = with_char_replaced(dir, '\\', '/');
    if windows {
        lowered(slashed)
    } else {
        slashed
    }
}

/// The key of a workspace.
pub fn workspace_key(workspace_dir: &str, windows: bool) -> (r: String)
    ensures
        r@ == key_of(workspace_dir@, windows),
{
    let raw = replace_char(workspace_dir, '\\', '/');
    if windows {
        to_lowercase(raw.as_str())
    } else {
        raw
    }
}

/// Paths that differ in their separators alone have the same key.
pub proof fn lemma_key_ignores_separators(a: Seq<char>, b: Seq<char>, windows: bool)
    requires
        a.len() == b.len(),
        forall|i: int|
            0 <= i < a.len() ==> #[trigger] a[i] == b[i] || (a[i] == '/' && b[i] == '\\') || (a[i]
                == '\\' && b[i] == '/'),
    ensures
        key_of(a, windows) == key_of(b, windows),
{
    assert(with_char_replaced(a, '\\', '/') =~= with_char_replaced(b, '\\', '/'));
}

/// On Windows, paths of ASCII characters that differ in their case alone have the same key.
pub proof fn lemma_key_ignores_case(a: Seq<char>, b: Seq<char>)
    requires
        is_ascii_chars(a),
        is_ascii_chars(b),
        a.len() == b.len(),
        forall|i: int| 0 <= i < a.len() ==> ascii_lower(#[trigger] a[i]) == ascii_lower(b[i]),
    ensures
        key_of(a, true) == key_of(b, true),
{
    let x = with_char_replaced(a, '\\', '/');
    let y = with_char_replaced(b, '\\', '/');
    assert(is_ascii_chars(x));
    assert(is_ascii_chars(y));
    assert(lowered(x) =~= lowered(y)) by {
        assert forall|i: int| 0 <= i < x.len() implies ascii_lower(x[i]) == ascii_lower(y[i]) by {
            assert(ascii_lower(a[i]) == ascii_lower(b[i]));
        }
    }
}

// ---------------------------------------------------------------------------
// Settings
// ---------------------------------------------------------------------------

/// The settings of the application.
#[derive(Clone, Debug)]
pub struct AppConfig {
    pub parallel_jobs: usize,
    pub workspace_history_limit: usize,
    pub workspace_builds: StringMap<WorkspaceBuildConfig>,
}

/// How many workspaces are remembered at most: at least one.
pub open spec fn history_bound(limit: usize) -> nat {
    if limit == 0 {
        1
    } else {
        limit as nat
    }
}

/// `after` is what pruning leaves of `before`: as many entries as `bound` allows, and none
/// that was used before one that was taken out.
pub open spec fn pruned(
    before: Map<Seq<char>, BuildView>,
    bound: nat,
    after: Map<Seq<char>, BuildView>,
) -> bool {
    &&& after.submap_of(before)
    &&& after.dom().finite()
    &&& after.dom().len() == if before.dom().len() <= bound {
        before.dom().len()
    } else {
        bound
    }
    &&& forall|k: Seq<char>, gone: Seq<char>|
        after.contains_key(k) && before.contains_key(gone) && !after.contains_key(gone)
            ==> (#[trigger] before[gone]).last_used <= (#[trigger] after[k]).last_used
}

/// Pruning keeps everything where there is room for it.
pub proof fn lemma_pruned_all(
    before: Map<Seq<char>, BuildView>,
    bound: nat,
    after: Map<Seq<char>, BuildView>,
)
    requires
        before.dom().finite(),
        pruned(before, bound, after),
        before.dom().len() <= bound,
    ensures
        after == before,
{
    assert(after.dom().subset_of(before.dom()));
    vstd::set_lib::lemma_subset_equality(after.dom(), before.dom());
    assert(after =~= before);
}

/// Pruning a second time changes nothing.
pub proof fn lemma_pruned_twice(
    before: Map<Seq<char>, BuildView>,
    bound: nat,
    after: Map<Seq<char>, BuildView>,
    again: Map<Seq<char>, BuildView>,
)
    requires
        pruned(before, bound, after),
        pruned(after, bound, again),
    ensures
        again == after,
{
    lemma_pruned_all(after, bound, again);
}

/// A build that was used after all others is still there after pruning.
pub proof fn lemma_pruned_keeps_newest(
    before: Map<Seq<char>, BuildView>,
    bound: nat,
    after: Map<Seq<char>, BuildView>,
    newest: Seq<char>,
)
    requires
        before.dom().finite(),
        pruned(before, bound, after),
        bound > 0,
        before.contains_key(newest),
        forall|k: Seq<char>|
            before.contains_key(k) && k != newest ==> (#[trigger] before[k]).last_used
                < before[newest].last_used,
    ensures
        after.contains_key(newest),
        after[newest] == before[newest],
{
    if !after.contains_key(newest) {
        if after.dom().len() == 0 {
            assert(before.dom().len() == 0);
            assert(before.dom() =~= Set::<Seq<char>>::empty());
        } else {
            let k = after.dom().choose();
            assert(after.dom().contains(k));
            assert(after.contains_key(k) && before.contains_key(k));
            assert(before[newest].last_used <= after[k].last_used);
            assert(after[k] == before[k]);
        }
    }
}

/// A workspace that was just used is remembered as it was used, where all others were used
/// before, or where there was room for it.
pub proof fn lemma_remembered(
    before: Map<Seq<char>, BuildView>,
    key: Seq<char>,
    build: BuildView,
    limit: usize,
    after: Map<Seq<char>, BuildView>,
)
    requires
        before.dom().finite(),
        pruned(before.insert(key, build), history_bound(limit), after),
        before.insert(key, build).dom().len() <= history_bound(limit) || forall|k: Seq<char>|
            before.contains_key(k) && k != key ==> (#[trigger] before[k]).last_used
                < build.last_used,
    ensures
        after.contains_key(key),
        after[key] == build,
{
    let all = before.insert(key, build);
    if all.dom().len() <= history_bound(limit) {
        lemma_pruned_all(all, history_bound(limit), after);
    } else {
        assert forall|k: Seq<char>| all.contains_key(k) && k != key implies (
        #[trigger] all[k]).last_used < all[key].last_used by {
            assert(before.contains_key(k));
            assert(before[k].last_used < build.last_used);
        }
        lemma_pruned_keeps_newest(all, history_bound(limit), after, key);
    }
}

/// `after` is what normalizing makes of `before` on a host with this many cores: what is zero
/// gets its default, what is not stays, and the history is pruned to the limit.
pub open spec fn normalized(before: AppConfig, host_cores: usize, after: AppConfig) -> bool {
    &&& after.parallel_jobs == if before.parallel_jobs == 0 {
        host_cores
    } else {
        before.parallel_jobs
    }
    &&& after.workspace_history_limit == if before.workspace_history_limit == 0 {
        DEFAULT_HISTORY_LIMIT
    } else {
        before.workspace_history_limit
    }
    &&& pruned(
        before.workspace_builds@,
        after.workspace_history_limit as nat,
        after.workspace_builds@,
    )
}

/// Normalized settings have at least one job, room for at least one workspace and no more
/// workspaces than that room. All workspaces stay where there is room for them, and normalizing
/// a second time changes nothing.
pub proof fn lemma_normalized(
    before: AppConfig,
    host_cores: usize,
    after: AppConfig,
    again: AppConfig,
)
    requires
        before.workspace_builds@.dom().finite(),
        host_cores >= 1,
        normalized(before, host_cores, after),
        normalized(after, host_cores, again),
    ensures
        after.parallel_jobs >= 1,
        after.workspace_history_limit >= 1,
        after.workspace_builds@.dom().len() <= after.workspace_history_limit,
        before.workspace_builds@.dom().len() <= after.workspace_history_limit
            ==> after.workspace_builds@ == before.workspace_builds@,
        again.parallel_jobs == after.parallel_jobs,
        again.workspace_history_limit == after.workspace_history_limit,
        again.workspace_builds@ == after.workspace_builds@,
{
    let bound = after.workspace_history_limit as nat;
    if before.workspace_builds@.dom().len() <= bound {
        lemma_pruned_all(before.workspace_builds@, bound, after.workspace_builds@);
    }
    lemma_pruned_twice(
        before.workspace_builds@,
        bound,
        after.workspace_builds@,
        again.workspace_builds@,
    );
}

impl AppConfig {
    /// The settings are well formed: no workspace stands twice in the history.
    pub open spec fn wf(&self) -> bool {
        self.workspace_builds.wf()
    }

    /// The settings of a first run on a host with this many cores.
    pub fn with_cores(host_cores: usize) -> (r: Self)
        requires
            host_cores >= 1,
        ensures
            r.wf(),
            r.parallel_jobs == host_cores,
            r.workspace_history_limit == DEFAULT_HISTORY_LIMIT,
            r.workspace_builds@ == Map::<Seq<char>, BuildView>::empty(),
    {
        AppConfig {
            parallel_jobs: host_cores,
            workspace_history_limit: default_workspace_history_limit(),
            workspace_builds: StringMap::new(),
        }
    }

    /// The settings to work with on a host with this many cores: those that were read, or
    /// else those of a first run, normalized.
    pub fn loaded(read: Option<AppConfig>, host_cores: usize) -> (r: Self)
        requires
            read matches Some(c) ==> c.wf(),
            host_cores >= 1,
        ensures
            r.wf(),
            r.parallel_jobs >= 1,
            r.workspace_history_limit >= 1,
            r.workspace_builds@.dom().len() <= r.workspace_history_limit,
            match read {
                Some(c) => normalized(c, host_cores, r),
                None => {
                    &&& r.parallel_jobs == host_cores
                    &&& r.workspace_history_limit == DEFAULT_HISTORY_LIMIT
                    &&& r.workspace_builds@ == Map::<Seq<char>, BuildView>::empty()
                },
            },
    {
        let mut cfg = match read {
            Some(c) => c,
            None => AppConfig::with_cores(host_cores),
        };
        let ghost start = cfg.workspace_builds@;
        cfg.normalize(host_cores);
        proof {
            if read is None {
                lemma_pruned_all(
                    start,
                    cfg.workspace_history_limit as nat,
                    cfg.workspace_builds@,
                );
            }
        }
        cfg
    }

    /// The position of an entry that was used no later than any other.
    fn oldest(&self) -> (r: usize)
        requires
            self.wf(),
            self.workspace_builds.keys().len() > 0,
        ensures
            r < self.workspace_builds.keys().len(),
            forall|k: Seq<char>|
                self.workspace_builds@.contains_key(k)
                    ==> self.workspace_builds@[self.workspace_builds.keys()[r as int]].last_used <= (
                #[trigger] self.workspace_builds@[k]).last_used,
    {
        let m = &self.workspace_builds;
        let ghost keys = m.keys();
        let n: usize = m.len();
        let mut best: usize = 0;
        let mut i: usize = 1;
        while i < n
            invariant
                m.wf(),
                keys == m.keys(),
                n == keys.len(),
                best < n,
                1 <= i <= n,
                forall|j: int|
                    0 <= j < i ==> m@[keys[best as int]].last_used <= (
                    #[trigger] m@[keys[j]]).last_used,
            decreases n - i,
        {
            let x: u64 = m.value_at(i).last_used_unix_secs;
            let y: u64 = m.value_at(best).last_used_unix_secs;
            proof {
                assert(m@[keys[i as int]].last_used == x);
                assert(m@[keys[best as int]].last_used == y);
            }
            if x < y {
                best = i;
            }
            i = i + 1;
        }
        proof {
            m.lemma_keys();
            assert forall|k: Seq<char>| m@.contains_key(k) implies m@[keys[best as int]].last_used
                <= (#[trigger] m@[k]).last_used by {
                assert(keys.contains(k));
                let j = choose|j: int| 0 <= j < keys.len() && keys[j] == k;
                assert(m@[keys[j]] == m@[k]);
            }
        }
        best
    }

    /// Takes the workspaces out of the history that were not used for the longest time, so
    /// that no more are left than its limit.
    pub fn prune_workspace_builds(&mut self)
        requires
            old(self).wf(),
        ensures
            final(self).wf(),
            final(self).parallel_jobs == old(self).parallel_jobs,
            final(self).workspace_history_limit == old(self).workspace_history_limit,
            pruned(
                old(self).workspace_builds@,
                history_bound(old(self).workspace_history_limit),
                final(self).workspace_builds@,
            ),
    {
        let limit: usize = if self.workspace_history_limit == 0 {
            1
        } else {
            self.workspace_history_limit
        };
        let ghost start = self.workspace_builds@;
        proof {
            self.workspace_builds.lemma_keys();
        }
        while self.workspace_builds.len() > limit
            invariant
                self.wf(),
                limit > 0,
                self.parallel_jobs == old(self).parallel_jobs,
                self.workspace_history_limit == old(self).workspace_history_limit,
                start.dom().finite(),
                self.workspace_builds@.submap_of(start),
                self.workspace_builds@.dom().finite(),
                start.dom().len() <= limit ==> self.workspace_builds@ == start,
                start.dom().len() > limit ==> self.workspace_builds@.dom().len() >= limit,
                forall|k: Seq<char>, gone: Seq<char>|
                    self.workspace_builds@.contains_key(k) && start.contains_key(gone)
                        && !self.workspace_builds@.contains_key(gone)
                        ==> (#[trigger] start[gone]).last_used <= (
                    #[trigger] self.workspace_builds@[k]).last_used,
            decreases self.workspace_builds@.dom().len(),
        {
            let ghost m = self.workspace_builds@;
            proof {
                self.workspace_builds.lemma_keys();
            }
            let i = self.oldest();
            let ghost gone_key = self.workspace_builds.keys()[i as int];
            proof {
                assert(self.workspace_builds.keys().contains(gone_key));
                assert(m.contains_key(gone_key));
            }
            self.workspace_builds.remove_at(i);
            proof {
                let after = self.workspace_builds@;
                assert(after == m.remove(gone_key));
                assert forall|k: Seq<char>, gone: Seq<char>|
                    after.contains_key(k) && start.contains_key(gone) && !after.contains_key(
                        gone,
                    ) implies (#[trigger] start[gone]).last_used <= (
                #[trigger] after[k]).last_used by {
                    assert(m.contains_key(k) && m[k] == after[k]);
                    if gone == gone_key {
                        assert(start[gone] == m[gone]);
                        assert(m[gone_key].last_used <= m[k].last_used);
                    } else {
                        assert(!m.contains_key(gone));
                    }
                }
            }
        }
    }

    /// Remembers the build that is made in a workspace at the time `now`.
    pub fn remember_workspace_build_at(
        &mut self,
        workspace_dir: &str,
        build_type: &str,
        target: &str,
        now: u64,
        windows: bool,
    )
        requires
            old(self).wf(),
        ensures
            final(self).wf(),
            final(self).parallel_jobs == old(self).parallel_jobs,
            final(self).workspace_history_limit == old(self).workspace_history_limit,
            pruned(
                old(self).workspace_builds@.insert(
                    key_of(workspace_dir@, windows),
                    build_at(build_type@, target@, now),
                ),
                history_bound(old(self).workspace_history_limit),
                final(self).workspace_builds@,
            ),
    {
        let key = workspace_key(workspace_dir, windows);
        let build = WorkspaceBuildConfig {
            build_type: build_type.to_owned(),
            target: target.to_owned(),
            last_used_unix_secs: now,
        };
        proof {
            assert(build@ == build_at(build_type@, target@, now));
        }
        self.workspace_builds.insert(key, build);
        self.prune_workspace_builds();
    }

    /// Remembers the build that is made in a workspace, at the time of the clock.
    pub fn remember_workspace_build(
        &mut self,
        workspace_dir: &str,
        build_type: &str,
        target: &str,
        windows: bool,
    )
        requires
            old(self).wf(),
        ensures
            final(self).wf(),
            final(self).parallel_jobs == old(self).parallel_jobs,
            final(self).workspace_history_limit == old(self).workspace_history_limit,
            exists|now: u64|
                pruned(
                    old(self).workspace_builds@.insert(
                        key_of(workspace_dir@, windows),
                        #[trigger] build_at(build_type@, target@, now),
                    ),
                    history_bound(old(self).workspace_history_limit),
                    final(self).workspace_builds@,
                ),
    {
        let now: u64 = unix_now_secs();
        self.remember_workspace_build_at(workspace_dir, build_type, target, now, windows);
    }

    /// The build that is remembered for a workspace.
    pub fn workspace_build(&self, workspace_dir: &str, windows: bool) -> (r: Option<
        &WorkspaceBuildConfig,
    >)
        requires
            self.wf(),
        ensures
            match r {
                Some(b) => self.workspace_builds@.contains_key(key_of(workspace_dir@, windows))
                    && self.workspace_builds@[key_of(workspace_dir@, windows)] == b@,
                None => !self.workspace_builds@.contains_key(key_of(workspace_dir@, windows)),
            },
    {
        let key = workspace_key(workspace_dir, windows);
        self.workspace_builds.get(key.as_str())
    }

    /// Gives the settings that are zero their defaults, on a host with this many cores, and
    /// prunes the history.
    pub fn normalize(&mut self, host_cores: usize)
        requires
            old(self).wf(),
            host_cores >= 1,
        ensures
            final(self).wf(),
            normalized(*old(self), host_cores, *final(self)),
            final(self).parallel_jobs >= 1,
            final(self).workspace_history_limit >= 1,
            final(self).workspace_builds@.dom().len() <= final(self).workspace_history_limit,
    {
        if self.parallel_jobs == 0 {
            self.parallel_jobs = host_cores;
        }
        if self.workspace_history_limit == 0 {
            self.workspace_history_limit = default_workspace_history_limit();
        }
        self.prune_workspace_builds();
    }
}

// ---------------------------------------------------------------------------
// Files
// ---------------------------------------------------------------------------

/// What is known of the directory `r` of the configuration files: a directory of the
/// application in the user's, or else one beside the program.
pub open spec fn config_dir_outcome(
    base: Option<Seq<char>>,
    exe: Seq<char>,
    r: Seq<char>,
) -> bool {
    match base {
        Some(b) => join_outcome(b, "cmake-tui-tool"@, r),
        None => exists|dir: Option<Seq<char>>| #[trigger]
            parent_outcome(exe, dir) && join_outcome(
                match dir {
                    Some(d) => d,
                    None => "."@,
                },
                "config"@,
                r,
            ),
    }
}

/// What is known of the path `r` of the configuration file `name`.
pub open spec fn config_file_outcome(
    base: Option<Seq<char>>,
    exe: Seq<char>,
    name: Seq<char>,
    r: Seq<char>,
) -> bool {
    exists|dir: Seq<char>| #[trigger]
        config_dir_outcome(base, exe, dir) && join_outcome(dir, name, r)
}

/// The name of the directory of the configuration files.
pub open spec fn config_dir_name(base: Option<Seq<char>>) -> Seq<char> {
    match base {
        Some(_) => "cmake-tui-tool"@,
        None => "config"@,
    }
}

/// The names of the configuration files and of their directories are ordinary everywhere.
proof fn lemma_config_names()
    ensures
        plain_name("cmake-tui-tool"@),
        plain_name("config"@),
        plain_name("config.json"@),
        plain_name("toolchain.json"@),
{
    reveal_strlit("cmake-tui-tool");
    reveal_strlit("config");
    reveal_strlit("config.json");
    reveal_strlit("toolchain.json");
    assert("cmake-tui-tool"@.len() == 14 && "config"@.len() == 6);
    assert("config.json"@.len() == 11 && "toolchain.json"@.len() == 14);
}

/// `r` is the path of `name` in the directory `sub` of the directory `dir`, with one separator
/// between the names, and one before them where `dir` needs it.
pub open spec fn placed(dir: Seq<char>, sub: Seq<char>, name: Seq<char>, r: Seq<char>) -> bool {
    exists|first: Seq<char>, second: Seq<char>| #[trigger]
        placed_with(dir, first, sub, second, name, r)
}

/// `r` is `dir`, `sub` and `name` with these separators between them.
pub open spec fn placed_with(
    dir: Seq<char>,
    first: Seq<char>,
    sub: Seq<char>,
    second: Seq<char>,
    name: Seq<char>,
    r: Seq<char>,
) -> bool {
    &&& r == dir + first + sub + second + name
    &&& first.len() == 0 || first == seq!['/'] || first == seq!['\\']
    &&& second == seq!['/'] || second == seq!['\\']
    &&& dir.len() == 0 || dir.last() == '/' ==> first.len() == 0
    &&& dir.len() > 0 && !separator(dir.last()) && dir.last() != ':' ==> first.len() > 0
}

/// A path that two joins with ordinary names lead to.
proof fn lemma_placed(
    dir: Seq<char>,
    sub: Seq<char>,
    name: Seq<char>,
    between: Seq<char>,
    r: Seq<char>,
)
    requires
        !verbatim_path(dir),
        plain_name(sub),
        sub[0] != '?',
        sub.len() >= 2 && sub[1] != '?',
        plain_name(name),
        join_outcome(dir, sub, between),
        join_outcome(between, name, r),
    ensures
        placed(dir, sub, name, r),
{
    let none = Seq::<char>::empty();
    let first = if between == dir + sub {
        none
    } else if between == dir + seq!['/'] + sub {
        seq!['/']
    } else {
        seq!['\\']
    };
    assert(between =~= dir + first + sub);
    assert(!separator(sub[sub.len() - 1]) && sub[sub.len() - 1] != ':');
    assert(between.last() == sub[sub.len() - 1]);
    assert(!verbatim_path(between)) by {
        if verbatim_path(between) {
            assert(between[2] == '?');
            assert(!separator(sub[0]) && !separator(sub[1]));
        }
    }
    let second = if r == between + seq!['/'] + name {
        seq!['/']
    } else {
        seq!['\\']
    };
    assert(r =~= dir + first + sub + second + name);
    assert(first.len() == 0 ==> between == dir + sub);
    assert(placed_with(dir, first, sub, second, name, r));
}

/// A configuration file lies in the application's directory in the user's, where there is one
/// that is not verbatim; else in the directory `config` beside the program, where that is known.
pub proof fn lemma_config_file(
    base: Option<Seq<char>>,
    exe: Seq<char>,
    name: Seq<char>,
    r: Seq<char>,
)
    requires
        plain_name(name),
        config_file_outcome(base, exe, name, r),
    ensures
        base matches Some(b) ==> !verbatim_path(b) ==> placed(b, "cmake-tui-tool"@, name, r),
        base is None && exe.len() == 0 ==> placed("."@, "config"@, name, r),
        base is None && readable_path(exe, 2) && plain_parent(exe, false) is Some && plain_parent(
            exe,
            true,
        ) is Some ==> {
            ||| placed(plain_parent(exe, false)->0, "config"@, name, r)
            ||| placed(plain_parent(exe, true)->0, "config"@, name, r)
        },
{
    lemma_config_names();
    reveal_strlit("cmake-tui-tool");
    reveal_strlit("config");
    reveal_strlit(".");
    let dir = choose|dir: Seq<char>| #[trigger]
        config_dir_outcome(base, exe, dir) && join_outcome(dir, name, r);
    match base {
        Some(b) => {
            if !verbatim_path(b) {
                lemma_placed(b, "cmake-tui-tool"@, name, dir, r);
            }
        },
        None => {
            let parent = choose|parent: Option<Seq<char>>| #[trigger]
                parent_outcome(exe, parent) && join_outcome(
                    match parent {
                        Some(d) => d,
                        None => "."@,
                    },
                    "config"@,
                    dir,
                );
            match parent {
                Some(d) => {
                    lemma_parent_starts(exe, false);
                    lemma_parent_starts(exe, true);
                    if !verbatim_path(d) {
                        lemma_placed(d, "config"@, name, dir, r);
                    }
                },
                None => {
                    lemma_placed("."@, "config"@, name, dir, r);
                },
            }
        },
    }
}

/// The two configuration files of one directory lie in it, and are not the same.
pub proof fn lemma_config_files_apart(dir: Seq<char>, settings: Seq<char>, toolchains: Seq<char>)
    requires
        join_outcome(dir, "config.json"@, settings),
        join_outcome(dir, "toolchain.json"@, toolchains),
    ensures
        settings != toolchains,
        !verbatim_path(dir) ==> dir.is_prefix_of(settings) && dir.is_prefix_of(toolchains),
{
    lemma_config_names();
    lemma_names_apart(settings, toolchains);
}

/// A path that ends in the name of one configuration file does not end in that of the other.
pub proof fn lemma_names_apart(settings: Seq<char>, toolchains: Seq<char>)
    requires
        "config.json"@.is_suffix_of(settings),
        "toolchain.json"@.is_suffix_of(toolchains),
    ensures
        settings != toolchains,
{
    reveal_strlit("config.json");
    reveal_strlit("toolchain.json");
    let a = "config.json"@;
    let b = "toolchain.json"@;
    let n = settings.len();
    assert(settings.subrange(n - 11, n as int)[0] == a[0]);
    if settings == toolchains {
        assert(toolchains.subrange(n - 14, n as int)[3] == b[3]);
    }
}

/// The directory of the configuration files, where the user's is `base` and the program is
/// at `exe`.
pub fn config_dir(base: Option<String>, exe: &str) -> (r: String)
    ensures
        config_dir_outcome(opt_text(base), exe@, r@),
        config_dir_name(opt_text(base)).is_suffix_of(r@),
{
    proof {
        lemma_config_names();
    }
    match base {
        Some(b) => path_join(b.as_str(), "cmake-tui-tool"),
        None => {
            let parent = path_parent(exe);
            let ghost p = opt_text(parent);
            let r = match parent {
                Some(d) => path_join(d.as_str(), "config"),
                None => path_join(".", "config"),
            };
            proof {
                assert(parent_outcome(exe@, p));
            }
            r
        },
    }
}

/// The path of the configuration file `name`, where the user's directory is `base` and the
/// program is at `exe`.
pub fn config_file(base: Option<String>, exe: &str, name: &str) -> (r: String)
    ensures
        config_file_outcome(opt_text(base), exe@, name@, r@),
        plain_name(name@) ==> name@.is_suffix_of(r@),
        plain_name(name@) ==> lies_in(config_dir_name(opt_text(base)), name@, r@),
{
    let ghost b = opt_text(base);
    let dir = config_dir(base, exe);
    let r = path_join(dir.as_str(), name);
    proof {
        lemma_config_names();
        assert(config_dir_outcome(b, exe@, dir@));
    }
    r
}

/// The path of the settings of the application, whose program is at `exe`.
pub fn app_config_path(exe: &str) -> (r: String)
    ensures
        exists|base: Option<Seq<char>>| #[trigger]
            config_file_outcome(base, exe@, "config.json"@, r@) && lies_in(
                config_dir_name(base),
                "config.json"@,
                r@,
            ),
        "config.json"@.is_suffix_of(r@),
        lies_in("cmake-tui-tool"@, "config.json"@, r@) || lies_in("config"@, "config.json"@, r@),
{
    proof {
        lemma_config_names();
    }
    let base = user_config_dir();
    let ghost b = opt_text(base);
    let r = config_file(base, exe, "config.json");
    proof {
        assert(config_file_outcome(b, exe@, "config.json"@, r@));
    }
    r
}

/// The path of the toolchains that are kept, of the application whose program is at `exe`.
pub fn config_path(exe: &str) -> (r: String)
    ensures
        exists|base: Option<Seq<char>>| #[trigger]
            config_file_outcome(base, exe@, "toolchain.json"@, r@) && lies_in(
                config_dir_name(base),
                "toolchain.json"@,
                r@,
            ),
        "toolchain.json"@.is_suffix_of(r@),
        lies_in("cmake-tui-tool"@, "toolchain.json"@, r@) || lies_in("config"@, "toolchain.json"@, r@),
{
    proof {
        lemma_config_names();
    }
    let base = user_config_dir();
    let ghost b = opt_text(base);
    let r = config_file(base, exe, "toolchain.json");
    proof {
        assert(config_file_outcome(b, exe@, "toolchain.json"@, r@));
    }
    r
}

} // verus!
