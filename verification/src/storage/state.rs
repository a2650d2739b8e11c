//! The repositories that the tool tracks, keyed by their canonical path, and
//! how tracking, untracking and recording a new version change them.

use vstd::prelude::*;
use crate::storage::config::same_text;

verus! {

/// An instant in UTC: seconds since the Unix epoch and nanoseconds.
#[derive(Clone, Copy, Debug, PartialEq, Eq, Structural)]
pub struct Timestamp {
    pub secs: i64,
    pub nanos: u32,
}

/// What is known of one tracked repository.
#[derive(Debug, Clone)]
pub struct TrackedRepo {
    pub path: String,
    pub name: String,
    pub current_version: Option<String>,
    pub hooks_enabled: bool,
    pub last_commit: Option<String>,
    pub commits_count: usize,
    pub first_tracked: Timestamp,
    pub last_tracked: Timestamp,
}

/// The abstract content of a `TrackedRepo`.
pub struct TrackedRepoView {
    pub path: Seq<char>,
    pub name: Seq<char>,
    pub current_version: Option<Seq<char>>,
    pub hooks_enabled: bool,
    pub last_commit: Option<Seq<char>>,
    pub commits_count: usize,
    pub first_tracked: Timestamp,
    pub last_tracked: Timestamp,
}

/// The text held by an optional string.
pub open spec fn opt_text(s: Option<String>) -> Option<Seq<char>> {
    match s {
        Some(t) => Some(t@),
        None => None,
    }
}

impl View for TrackedRepo {
    type V = TrackedRepoView;

    open spec fn view(&self) -> TrackedRepoView {
        TrackedRepoView {
            path: self.path@,
            name: self.name@,
            current_version: opt_text(self.current_version),
            hooks_enabled: self.hooks_enabled,
            last_commit: opt_text(self.last_commit),
            commits_count: self.commits_count,
            first_tracked: self.first_tracked,
            last_tracked: self.last_tracked,
        }
    }
}

/// The tracked repositories, each under its key (its canonical path), and
/// when the state last changed.
#[derive(Debug, Clone)]
pub struct State {
    pub tracked_repos: Vec<(String, TrackedRepo)>,
    pub last_update: Option<Timestamp>,
}

/// The abstract content of a `State`: the keyed entries in order.
pub struct StateView {
    pub repos: Seq<(Seq<char>, TrackedRepoView)>,
    pub last_update: Option<Timestamp>,
}

impl View for State {
    type V = StateView;

    open spec fn view(&self) -> StateView {
        StateView {
            repos: Seq::new(
                self.tracked_repos@.len(),
                |i: int| (self.tracked_repos@[i].0@, self.tracked_repos@[i].1@),
            ),
            last_update: self.last_update,
        }
    }
}

/// Index of the entry under `key`, or the number of entries.
pub open spec fn key_index(repos: Seq<(Seq<char>, TrackedRepoView)>, key: Seq<char>) -> nat
    decreases repos.len(),
{
    if repos.len() == 0 {
        0
    } else if repos[0].0 == key {
        0
    } else {
        1 + key_index(repos.drop_first(), key)
    }
}

/// The repository under `key`, if one is tracked.
pub open spec fn lookup(s: StateView, key: Seq<char>) -> Option<TrackedRepoView> {
    let i = key_index(s.repos, key);
    if i < s.repos.len() {
        Some(s.repos[i as int].1)
    } else {
        None
    }
}

/// No key stands twice.
pub open spec fn keys_distinct(s: StateView) -> bool {
    forall|i: int, j: int|
        0 <= i < j < s.repos.len() ==> #[trigger] s.repos[i].0 != #[trigger] s.repos[j].0
}

/// The record for a repository that starts being tracked at `now`.
pub open spec fn new_repo(key: Seq<char>, name: Seq<char>, now: Timestamp) -> TrackedRepoView {
    TrackedRepoView {
        path: key,
        name: name,
        current_version: None,
        hooks_enabled: false,
        last_commit: None,
        commits_count: 0,
        first_tracked: now,
        last_tracked: now,
    }
}

/// The state after tracking the repository at `key` under `name` at `now`: a
/// repository already tracked keeps its record and only gets `now` as the
/// time it was last tracked; a new one is added.
pub open spec fn spec_track(s: StateView, key: Seq<char>, name: Seq<char>, now: Timestamp) -> StateView {
    let i = key_index(s.repos, key);
    StateView {
        repos: if i < s.repos.len() {
            s.repos.update(
                i as int,
                (key, TrackedRepoView { last_tracked: now, ..s.repos[i as int].1 }),
            )
        } else {
            s.repos.push((key, new_repo(key, name, now)))
        },
        last_update: Some(now),
    }
}

/// The state after untracking the repository at `key`.
pub open spec fn spec_untrack(s: StateView, key: Seq<char>) -> StateView {
    let i = key_index(s.repos, key);
    StateView {
        repos: if i < s.repos.len() {
            s.repos.remove(i as int)
        } else {
            s.repos
        },
        last_update: s.last_update,
    }
}

/// The state after a commit of `version` in the repository at `key` at `now`:
/// a tracked repository records the version, counts one more commit and is
/// marked as tracked at `now`; nothing changes for another key.
pub open spec fn spec_record_version(
    s: StateView,
    key: Seq<char>,
    version: Seq<char>,
    now: Timestamp,
) -> StateView {
    let i = key_index(s.repos, key);
    if i < s.repos.len() {
        let r = s.repos[i as int].1;
        StateView {
            repos: s.repos.update(
                i as int,
                (
                    key,
                    TrackedRepoView {
                        current_version: Some(version),
                        commits_count: (r.commits_count + 1) as usize,
                        last_tracked: now,
                        ..r
                    },
                ),
            ),
            last_update: s.last_update,
        }
    } else {
        s
    }
}

/// Facts about `key_index`.
pub proof fn lemma_key_index(repos: Seq<(Seq<char>, TrackedRepoView)>, key: Seq<char>)
    ensures
        key_index(repos, key) <= repos.len(),
        key_index(repos, key) < repos.len() ==> repos[key_index(repos, key) as int].0 == key,
        forall|j: int| 0 <= j < key_index(repos, key) ==> repos[j].0 != key,
    decreases repos.len(),
{
    if repos.len() > 0 && repos[0].0 != key {
        lemma_key_index(repos.drop_first(), key);
        assert forall|j: int| 0 <= j < key_index(repos, key) implies repos[j].0 != key by {
            if j > 0 {
                assert(repos[j] == repos.drop_first()[j - 1]);
            }
        }
    }
}

/// A state with no repositories.
pub fn empty_state() -> (r: State)
    ensures
        r@.repos.len() == 0,
        r@.last_update is None,
        keys_distinct(r@),
{
    State { tracked_repos: Vec::new(), last_update: None }
}

/// A copy of a repository record.
pub fn copy_repo(r: &TrackedRepo) -> (c: TrackedRepo)
    ensures
        c@ == r@,
{
    TrackedRepo {
        path: r.path.clone(),
        name: r.name.clone(),
        current_version: match &r.current_version {
            Some(v) => Some(v.clone()),
            None => None,
        },
        hooks_enabled: r.hooks_enabled,
        last_commit: match &r.last_commit {
            Some(v) => Some(v.clone()),
            None => None,
        },
        commits_count: r.commits_count,
        first_tracked: r.first_tracked,
        last_tracked: r.last_tracked,
    }
}

/// Index of the entry under `key`, or the number of entries.
fn find_key(state: &State, key: &str) -> (r: usize)
    ensures
        r == key_index(state@.repos, key@),
{
    let ghost repos = state@.repos;
    proof {
        lemma_key_index(repos, key@);
    }
    let mut i: usize = 0;
    while i < state.tracked_repos.len()
        invariant
            i <= state.tracked_repos@.len(),
            repos == state@.repos,
            forall|j: int| 0 <= j < i ==> repos[j].0 != key@,
            key_index(repos, key@) <= repos.len(),
            key_index(repos, key@) < repos.len() ==> repos[key_index(repos, key@) as int].0
                == key@,
            forall|j: int| 0 <= j < key_index(repos, key@) ==> repos[j].0 != key@,
        decreases state.tracked_repos@.len() - i,
    {
        assert(repos[i as int].0 == state.tracked_repos@[i as int].0@);
        if same_text(state.tracked_repos[i].0.as_str(), key) {
            proof {
                if key_index(repos, key@) < i {
                    assert(repos[key_index(repos, key@) as int].0 == key@);
                }
            }
            return i;
        }
        i = i + 1;
    }
    proof {
        if key_index(repos, key@) < i {
            assert(repos[key_index(repos, key@) as int].0 == key@);
        }
    }
    i
}

/// The repository tracked under `key`, if any.
pub fn get_tracked_repo(state: &State, key: &str) -> (r: Option<TrackedRepo>)
    ensures
        match lookup(state@, key@) {
            Some(v) => r matches Some(x) && x@ == v,
            None => r is None,
        },
{
    let i = find_key(state, key);
    if i < state.tracked_repos.len() {
        Some(copy_repo(&state.tracked_repos[i].1))
    } else {
        None
    }
}

/// Tracks the repository at `key` (its canonical path) under `name`, at `now`,
/// and gives back its record.
pub fn track_repo(state: &mut State, key: &str, name: &str, now: Timestamp) -> (r: TrackedRepo)
    ensures
        final(state)@ == spec_track(old(state)@, key@, name@, now),
        lookup(final(state)@, key@) == Some(r@),
        keys_distinct(old(state)@) ==> keys_distinct(final(state)@),
{
    proof {
        if keys_distinct(state@) {
            law_keys_stay_distinct(state@, key@, name@, name@, now);
        }
    }
    let i = find_key(state, key);
    let ghost old_repos = state@.repos;
    proof {
        lemma_key_index(old_repos, key@);
    }
    if i < state.tracked_repos.len() {
        let old_repo = copy_repo(&state.tracked_repos[i].1);
        let updated = TrackedRepo { last_tracked: now, ..old_repo };
        let result = copy_repo(&updated);
        state.tracked_repos.set(i, (key.to_string(), updated));
        state.last_update = Some(now);
        proof {
            assert(state@.repos =~= spec_track(old(state)@, key@, name@, now).repos);
            lemma_key_index(state@.repos, key@);
            assert(key_index(state@.repos, key@) == i) by {
                if key_index(state@.repos, key@) < i {
                    assert(state@.repos[key_index(state@.repos, key@) as int] == old_repos[key_index(state@.repos, key@) as int]);
                }
                if key_index(state@.repos, key@) > i {
                    assert(state@.repos[i as int].0 == key@);
                }
            }
        }
        result
    } else {
        let repo = TrackedRepo {
            path: key.to_string(),
            name: name.to_string(),
            current_version: None,
            hooks_enabled: false,
            last_commit: None,
            commits_count: 0,
            first_tracked: now,
            last_tracked: now,
        };
        let result = copy_repo(&repo);
        state.tracked_repos.push((key.to_string(), repo));
        state.last_update = Some(now);
        proof {
            assert(state@.repos =~= spec_track(old(state)@, key@, name@, now).repos);
            lemma_key_index(state@.repos, key@);
            assert(key_index(state@.repos, key@) == i) by {
                if key_index(state@.repos, key@) < i {
                    assert(state@.repos[key_index(state@.repos, key@) as int] == old_repos[key_index(state@.repos, key@) as int]);
                }
                if key_index(state@.repos, key@) > i {
                    assert(state@.repos[i as int].0 == key@);
                }
            }
        }
        result
    }
}

/// Stops tracking the repository at `key`; says whether it was tracked.
pub fn untrack_repo(state: &mut State, key: &str) -> (r: bool)
    ensures
        final(state)@ == spec_untrack(old(state)@, key@),
        r == (lookup(old(state)@, key@) is Some),
        keys_distinct(old(state)@) ==> keys_distinct(final(state)@),
{
    proof {
        if keys_distinct(state@) {
            law_keys_stay_distinct(state@, key@, key@, key@, Timestamp { secs: 0, nanos: 0 });
        }
    }
    let i = find_key(state, key);
    if i < state.tracked_repos.len() {
        state.tracked_repos.remove(i);
        assert(state@.repos =~= spec_untrack(old(state)@, key@).repos);
        true
    } else {
        false
    }
}

/// Records a commit of `version` in the repository at `key` at `now`.
pub fn update_repo_version(state: &mut State, key: &str, version: &str, now: Timestamp)
    requires
        lookup(old(state)@, key@) matches Some(r) ==> r.commits_count < usize::MAX,
    ensures
        final(state)@ == spec_record_version(old(state)@, key@, version@, now),
        keys_distinct(old(state)@) ==> keys_distinct(final(state)@),
{
    proof {
        if keys_distinct(state@) {
            law_keys_stay_distinct(state@, key@, version@, version@, now);
        }
    }
    let i = find_key(state, key);
    if i < state.tracked_repos.len() {
        let old_repo = copy_repo(&state.tracked_repos[i].1);
        let count = old_repo.commits_count + 1;
        let updated = TrackedRepo {
            current_version: Some(version.to_string()),
            commits_count: count,
            last_tracked: now,
            ..old_repo
        };
        state.tracked_repos.set(i, (key.to_string(), updated));
        assert(state@.repos =~= spec_record_version(old(state)@, key@, version@, now).repos);
    }
}

/// `key_index` is the first position of the key.
pub proof fn lemma_key_index_at(repos: Seq<(Seq<char>, TrackedRepoView)>, key: Seq<char>, i: int)
    requires
        0 <= i <= repos.len(),
        forall|j: int| 0 <= j < i ==> (#[trigger] repos[j]).0 != key,
        i == repos.len() || repos[i].0 == key,
    ensures
        key_index(repos, key) == i,
{
    lemma_key_index(repos, key);
    let n = key_index(repos, key) as int;
    if n < i {
        assert(repos[n].0 == key);
    }
    if n > i {
        assert(repos[i].0 != key);
    }
}

/// Changing the record at a position, under the same key, moves no key.
pub proof fn lemma_lookup_after_update(
    repos: Seq<(Seq<char>, TrackedRepoView)>,
    i: int,
    v: TrackedRepoView,
    key: Seq<char>,
)
    requires
        0 <= i < repos.len(),
    ensures
        key_index(repos.update(i, (repos[i].0, v)), key) == key_index(repos, key),
{
    let new = repos.update(i, (repos[i].0, v));
    lemma_key_index(repos, key);
    let n = key_index(repos, key) as int;
    assert forall|j: int| 0 <= j < n implies (#[trigger] new[j]).0 != key by {
        assert(new[j].0 == repos[j].0);
    }
    if n < repos.len() {
        assert(new[n].0 == repos[n].0);
    }
    lemma_key_index_at(new, key, n);
}

/// Adding an entry at the end moves no key that was there.
pub proof fn lemma_lookup_after_push(
    repos: Seq<(Seq<char>, TrackedRepoView)>,
    e: (Seq<char>, TrackedRepoView),
    key: Seq<char>,
)
    ensures
        key_index(repos.push(e), key) == (if key_index(repos, key) < repos.len() {
            key_index(repos, key)
        } else if e.0 == key {
            repos.len()
        } else {
            repos.len() + 1
        }),
{
    let new = repos.push(e);
    lemma_key_index(repos, key);
    let n = key_index(repos, key) as int;
    assert forall|j: int| 0 <= j < n implies (#[trigger] new[j]).0 != key by {
        assert(new[j] == repos[j]);
    }
    if n < repos.len() {
        assert(new[n] == repos[n]);
        lemma_key_index_at(new, key, n);
    } else if e.0 == key {
        lemma_key_index_at(new, key, n);
    } else {
        lemma_key_index_at(new, key, n + 1);
    }
}

/// Removing the entry of one key from a state with distinct keys leaves that
/// key untracked and every other key where it was.
pub proof fn lemma_lookup_after_remove(s: StateView, i: int, key: Seq<char>)
    requires
        keys_distinct(s),
        0 <= i < s.repos.len(),
    ensures
        key == s.repos[i].0 ==> key_index(s.repos.remove(i), key) == s.repos.len() - 1,
        key != s.repos[i].0 ==> lookup(StateView { repos: s.repos.remove(i), ..s }, key) == lookup(
            s,
            key,
        ),
{
    let a = s.repos;
    let new = a.remove(i);
    lemma_key_index(a, key);
    let m = key_index(a, key) as int;
    if key == a[i].0 {
        assert forall|j: int| 0 <= j < new.len() implies (#[trigger] new[j]).0 != key by {
            if j < i {
                assert(new[j] == a[j]);
                assert(a[j].0 != a[i].0);
            } else {
                assert(new[j] == a[j + 1]);
                assert(a[i].0 != a[j + 1].0);
            }
        }
        lemma_key_index_at(new, key, new.len() as int);
    } else {
        if m < i {
            assert forall|j: int| 0 <= j < m implies (#[trigger] new[j]).0 != key by {
                assert(new[j] == a[j]);
            }
            assert(new[m] == a[m]);
            lemma_key_index_at(new, key, m);
        } else {
            assert(m != i);
            assert forall|j: int| 0 <= j < m - 1 implies (#[trigger] new[j]).0 != key by {
                if j < i {
                    assert(new[j] == a[j]);
                } else {
                    assert(new[j] == a[j + 1]);
                }
            }
            if m < a.len() {
                assert(new[m - 1] == a[m]);
            }
            lemma_key_index_at(new, key, m - 1);
        }
    }
}

/// Law: after tracking the repository at `key`, it is tracked: with its old
/// record and `now` as the time it was last tracked when it was tracked
/// before, else with a new record; every other key keeps its record.
pub proof fn law_track_then_lookup(
    s: StateView,
    key: Seq<char>,
    name: Seq<char>,
    now: Timestamp,
    other: Seq<char>,
)
    requires
        other != key,
    ensures
        lookup(spec_track(s, key, name, now), key) == Some(
            match lookup(s, key) {
                Some(r) => TrackedRepoView { last_tracked: now, ..r },
                None => new_repo(key, name, now),
            },
        ),
        lookup(spec_track(s, key, name, now), other) == lookup(s, other),
{
    lemma_key_index(s.repos, key);
    let i = key_index(s.repos, key) as int;
    if i < s.repos.len() {
        lemma_lookup_after_update(s.repos, i, TrackedRepoView { last_tracked: now, ..s.repos[i].1 }, key);
        lemma_lookup_after_update(s.repos, i, TrackedRepoView { last_tracked: now, ..s.repos[i].1 }, other);
        lemma_key_index(s.repos, other);
        if key_index(s.repos, other) == i {
            assert(s.repos[i].0 == other);
        }
    } else {
        lemma_lookup_after_push(s.repos, (key, new_repo(key, name, now)), key);
        lemma_lookup_after_push(s.repos, (key, new_repo(key, name, now)), other);
        lemma_key_index(s.repos, other);
    }
}

/// Law: after untracking `key` in a state with distinct keys, `key` is no
/// longer tracked and every other key keeps its record.
pub proof fn law_untrack_then_lookup(s: StateView, key: Seq<char>, other: Seq<char>)
    requires
        keys_distinct(s),
        other != key,
    ensures
        lookup(spec_untrack(s, key), key) is None,
        lookup(spec_untrack(s, key), other) == lookup(s, other),
{
    lemma_key_index(s.repos, key);
    let i = key_index(s.repos, key) as int;
    if i < s.repos.len() {
        lemma_lookup_after_remove(s, i, key);
        lemma_lookup_after_remove(s, i, other);
    }
}

/// Law: recording a version changes only the record of `key`, and only when
/// it is tracked: its version becomes `version`, its commit count grows by
/// one and `now` becomes the time it was last tracked.
pub proof fn law_record_version_then_lookup(
    s: StateView,
    key: Seq<char>,
    version: Seq<char>,
    now: Timestamp,
    other: Seq<char>,
)
    requires
        other != key,
    ensures
        lookup(spec_record_version(s, key, version, now), key) == match lookup(s, key) {
            Some(r) => Some(
                TrackedRepoView {
                    current_version: Some(version),
                    commits_count: (r.commits_count + 1) as usize,
                    last_tracked: now,
                    ..r
                },
            ),
            None => None,
        },
        lookup(spec_record_version(s, key, version, now), other) == lookup(s, other),
{
    lemma_key_index(s.repos, key);
    let i = key_index(s.repos, key) as int;
    if i < s.repos.len() {
        let r = s.repos[i].1;
        let v = TrackedRepoView {
            current_version: Some(version),
            commits_count: (r.commits_count + 1) as usize,
            last_tracked: now,
            ..r
        };
        lemma_lookup_after_update(s.repos, i, v, key);
        lemma_lookup_after_update(s.repos, i, v, other);
        lemma_key_index(s.repos, other);
        if key_index(s.repos, other) == i {
            assert(s.repos[i].0 == other);
        }
    }
}

/// Law: tracking, untracking and recording versions keep every key at most
/// once in the state.
pub proof fn law_keys_stay_distinct(
    s: StateView,
    key: Seq<char>,
    name: Seq<char>,
    version: Seq<char>,
    now: Timestamp,
)
    requires
        keys_distinct(s),
    ensures
        keys_distinct(spec_track(s, key, name, now)),
        keys_distinct(spec_untrack(s, key)),
        keys_distinct(spec_record_version(s, key, version, now)),
{
    lemma_key_index(s.repos, key);
    let i = key_index(s.repos, key) as int;
    let t = spec_track(s, key, name, now);
    assert forall|a: int, b: int| 0 <= a < b < t.repos.len() implies #[trigger] t.repos[a].0
        != #[trigger] t.repos[b].0 by {
        if i < s.repos.len() {
            assert(t.repos[a].0 == s.repos[a].0);
            assert(t.repos[b].0 == s.repos[b].0);
        } else if b == s.repos.len() {
            assert(t.repos[a] == s.repos[a]);
        } else {
            assert(t.repos[a] == s.repos[a]);
            assert(t.repos[b] == s.repos[b]);
        }
    }
    let u = spec_untrack(s, key);
    assert forall|a: int, b: int| 0 <= a < b < u.repos.len() implies #[trigger] u.repos[a].0
        != #[trigger] u.repos[b].0 by {
        if i < s.repos.len() {
            let a2 = if a < i { a } else { a + 1 };
            let b2 = if b < i { b } else { b + 1 };
            assert(u.repos[a] == s.repos[a2]);
            assert(u.repos[b] == s.repos[b2]);
        }
    }
    let w = spec_record_version(s, key, version, now);
    assert forall|a: int, b: int| 0 <= a < b < w.repos.len() implies #[trigger] w.repos[a].0
        != #[trigger] w.repos[b].0 by {
        if i < s.repos.len() {
            assert(w.repos[a].0 == s.repos[a].0);
            assert(w.repos[b].0 == s.repos[b].0);
        }
    }
}

} // verus!
