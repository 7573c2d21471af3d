//! What the watcher decides: which events matter, when an event is a
//! repeat to skip, what a file event leads to, how watched folders change
//! on a config reload, and how a scan is tallied.

use vstd::prelude::*;
use crate::paths::{components, components_of, extension, extension_of, parent, parent_of, paths_equal, same_path};
use crate::store::{StoreErrV, StoreError};
use crate::text::{copy_string, push_str, str_eq, strs};

verus! {

broadcast use vstd::string::group_string_axioms;

/// Errors of the watcher.
#[derive(Debug, Clone, PartialEq)]
pub enum WatchError {
    /// A notification error, by its message.
    Notify(String),
    Store(StoreError),
    /// An I/O error, by its message.
    Io(String),
    Other(String),
}

impl WatchError {
    /// The error's message, as its `Display` form would print it.
    pub fn message(&self) -> (r: String)
        ensures
            match self {
                WatchError::Notify(s) => r@ == "notify error: "@ + s@,
                WatchError::Store(e) => r@ == "store error: "@ + crate::store::store_error_message(e@),
                WatchError::Io(s) => r@ == "io error: "@ + s@,
                WatchError::Other(s) => r@ == "watch error: "@ + s@,
            },
    {
        let mut r = String::new();
        match self {
            WatchError::Notify(s) => {
                push_str(&mut r, "notify error: ");
                push_str(&mut r, s.as_str());
            },
            WatchError::Store(e) => {
                push_str(&mut r, "store error: ");
                let m = e.message();
                push_str(&mut r, m.as_str());
            },
            WatchError::Io(s) => {
                push_str(&mut r, "io error: ");
                push_str(&mut r, s.as_str());
            },
            WatchError::Other(s) => {
                push_str(&mut r, "watch error: ");
                push_str(&mut r, s.as_str());
            },
        }
        r
    }
}

// ---------------------------------------------------------------------------
// Scans
// ---------------------------------------------------------------------------

/// Result of a directory scan.
#[derive(Debug, Default, Clone, PartialEq)]
pub struct ScanResult {
    pub found: usize,
    pub indexed: usize,
    pub skipped: usize,
    pub errors: usize,
}

/// What indexing one file came to.
#[derive(Debug, Clone, Copy, PartialEq, Eq, Structural)]
pub enum IndexOutcome {
    Indexed,
    /// Unchanged since it was last indexed.
    Skipped,
    Failed,
}

/// The number of outcomes equal to `o`.
pub open spec fn count_of(s: Seq<IndexOutcome>, o: IndexOutcome) -> nat
    decreases s.len(),
{
    if s.len() == 0 {
        0
    } else {
        count_of(s.drop_last(), o) + if s.last() == o { 1nat } else { 0nat }
    }
}

proof fn lemma_count_bound(s: Seq<IndexOutcome>, o: IndexOutcome)
    ensures
        count_of(s, o) <= s.len(),
    decreases s.len(),
{
    if s.len() > 0 {
        lemma_count_bound(s.drop_last(), o);
    }
}

/// Tallies a scan: every file found, and how many were indexed, skipped
/// or failed.
pub fn tally_scan(outcomes: &Vec<IndexOutcome>) -> (r: ScanResult)
    ensures
        r.found == outcomes.len(),
        r.indexed == count_of(outcomes@, IndexOutcome::Indexed),
        r.skipped == count_of(outcomes@, IndexOutcome::Skipped),
        r.errors == count_of(outcomes@, IndexOutcome::Failed),
        r.indexed + r.skipped + r.errors == r.found,
{
    let mut r = ScanResult { found: outcomes.len(), indexed: 0, skipped: 0, errors: 0 };
    let mut i: usize = 0;
    while i < outcomes.len()
        invariant
            i <= outcomes.len(),
            r.found == outcomes.len(),
            r.indexed == count_of(outcomes@.take(i as int), IndexOutcome::Indexed),
            r.skipped == count_of(outcomes@.take(i as int), IndexOutcome::Skipped),
            r.errors == count_of(outcomes@.take(i as int), IndexOutcome::Failed),
            r.indexed + r.skipped + r.errors == i,
        decreases outcomes.len() - i,
    {
        proof {
            assert(outcomes@.take(i + 1).drop_last() =~= outcomes@.take(i as int));
            assert(outcomes@.take(i + 1).last() == outcomes@[i as int]);
        }
        match outcomes[i] {
            IndexOutcome::Indexed => r.indexed = r.indexed + 1,
            IndexOutcome::Skipped => r.skipped = r.skipped + 1,
            IndexOutcome::Failed => r.errors = r.errors + 1,
        }
        i = i + 1;
    }
    assert(outcomes@.take(outcomes.len() as int) =~= outcomes@);
    r
}

// ---------------------------------------------------------------------------
// Paths
// ---------------------------------------------------------------------------

/// A path has a `.git` component.
pub open spec fn in_dotgit(path: Seq<char>) -> bool {
    components_of(path).contains(".git"@)
}

/// Whether a path lies inside a `.git` directory.
pub fn is_inside_dotgit(path: &str) -> (r: bool)
    ensures
        r == in_dotgit(path@),
{
    let cs = components(path);
    let mut i: usize = 0;
    while i < cs.len()
        invariant
            i <= cs.len(),
            strs(cs@) == components_of(path@),
            forall|j: int| 0 <= j < i ==> strs(cs@)[j] != ".git"@,
        decreases cs.len() - i,
    {
        assert(strs(cs@)[i as int] == cs@[i as int]@);
        if str_eq(cs[i].as_str(), ".git") {
            return true;
        }
        i = i + 1;
    }
    false
}

/// A path has the extension `typ`.
pub open spec fn typ_extension(path: Seq<char>) -> bool {
    extension_of(path) == Some("typ"@)
}

/// Whether a path has the extension `typ`.
pub fn has_typ_extension(path: &str) -> (r: bool)
    ensures
        r == typ_extension(path@),
{
    match extension(path) {
        Some(e) => str_eq(e.as_str(), "typ"),
        None => false,
    }
}

// ---------------------------------------------------------------------------
// Events
// ---------------------------------------------------------------------------

/// The kind of a file-system event, as far as the watcher tells them
/// apart.
#[derive(Debug, Clone, Copy, PartialEq, Eq, Structural)]
pub enum EventClass {
    /// A file was opened or read.
    Access,
    /// An event of no known kind.
    Other,
    /// A file was created, changed or removed.
    Change,
}

/// Whether events of a kind are handled: reads are not (our own reads
/// would loop), nor unknown events.
pub fn event_matters(kind: EventClass) -> (r: bool)
    ensures
        r == (kind == EventClass::Change),
{
    match kind {
        EventClass::Access | EventClass::Other => false,
        EventClass::Change => true,
    }
}

/// Milliseconds within which a second event for a path is skipped.
pub const DEBOUNCE_MS: u64 = 300;

/// Milliseconds after which a path is forgotten.
pub const DEBOUNCE_EXPIRY_MS: u64 = 60000;

/// Every how many events forgotten paths are dropped.
pub const PRUNE_EVERY: u64 = 1000;

/// The last time each path was let through, and how many events came.
#[derive(Debug, Clone, PartialEq)]
pub struct Debouncer {
    /// `(path, time in ms)`, at most one entry per path.
    pub last_seen: Vec<(String, u64)>,
    pub event_count: u64,
}

/// The plain form of the times seen.
pub open spec fn seen_view(v: Seq<(String, u64)>) -> Seq<(Seq<char>, u64)> {
    v.map_values(|e: (String, u64)| (e.0@, e.1))
}

/// `x` occurs among the first `n` items of `s`.
pub open spec fn in_prefix(x: (Seq<char>, u64), s: Seq<(Seq<char>, u64)>, n: int) -> bool {
    exists|j: int| 0 <= j < n && s[j] == x
}

/// Each path occurs at most once.
pub open spec fn distinct_paths(v: Seq<(Seq<char>, u64)>) -> bool {
    forall|i: int, j: int| 0 <= i < j < v.len() ==> v[i].0 != v[j].0
}

/// The time a path was last let through, if it was.
pub open spec fn seen_at(v: Seq<(Seq<char>, u64)>, path: Seq<char>) -> Option<u64>
    decreases v.len(),
{
    if v.len() == 0 {
        None
    } else if v.last().0 == path {
        Some(v.last().1)
    } else {
        seen_at(v.drop_last(), path)
    }
}

/// The times seen, as a map from path to the last time it went through.
pub open spec fn seen_map(v: Seq<(Seq<char>, u64)>) -> Map<Seq<char>, u64> {
    Map::new(|p: Seq<char>| seen_at(v, p) is Some, |p: Seq<char>| seen_at(v, p)->Some_0)
}

/// Whether a time seen is recent enough at `now` to be kept by pruning.
pub open spec fn recent(t: u64, now: u64) -> bool {
    t <= now && now - t < DEBOUNCE_EXPIRY_MS
}

/// Whether an event for `path` at `now` goes through, given the times seen.
pub open spec fn passes(m: Map<Seq<char>, u64>, path: Seq<char>, now: u64) -> bool {
    !(m.contains_key(path) && m[path] <= now && now - m[path] < DEBOUNCE_MS)
}

/// The times seen after the `count`-th event at `now`: every
/// `PRUNE_EVERY` events only the recent ones stay.
pub open spec fn tick_map(m: Map<Seq<char>, u64>, count: int, now: u64) -> Map<Seq<char>, u64> {
    if count % (PRUNE_EVERY as int) == 0 {
        Map::new(|p: Seq<char>| m.contains_key(p) && recent(m[p], now), |p: Seq<char>| m[p])
    } else {
        m
    }
}

impl Debouncer {
    /// The debouncer's invariant: one entry per path.
    pub open spec fn wf(&self) -> bool {
        distinct_paths(seen_view(self.last_seen@))
    }

    /// A debouncer that has seen nothing.
    pub fn new() -> (r: Debouncer)
        ensures
            r.wf(),
            r.last_seen.len() == 0,
            r.event_count == 0,
    {
        Debouncer { last_seen: Vec::new(), event_count: 0 }
    }

    fn find(&self, path: &str) -> (r: Option<usize>)
        requires
            self.wf(),
        ensures
            match r {
                Some(i) => i < self.last_seen.len() && self.last_seen@[i as int].0@ == path@ && seen_at(
                    seen_view(self.last_seen@),
                    path@,
                ) == Some(self.last_seen@[i as int].1),
                None => seen_at(seen_view(self.last_seen@), path@) is None,
            },
    {
        let ghost v = seen_view(self.last_seen@);
        let mut i: usize = self.last_seen.len();
        assert(v.take(i as int) =~= v);
        while i > 0
            invariant
                i <= self.last_seen.len(),
                v == seen_view(self.last_seen@),
                seen_at(v, path@) == seen_at(v.take(i as int), path@),
            decreases i,
        {
            let k = i - 1;
            proof {
                assert(v.take(i as int).drop_last() =~= v.take(k as int));
                assert(v.take(i as int).last() == v[k as int]);
                assert(v[k as int] == (self.last_seen@[k as int].0@, self.last_seen@[k as int].1));
            }
            if str_eq(self.last_seen[k].0.as_str(), path) {
                return Some(k);
            }
            i = k;
        }
        None
    }

    /// Counts an event and, every `PRUNE_EVERY` events, forgets the paths
    /// not seen for `DEBOUNCE_EXPIRY_MS`.
    pub fn count_event(&mut self, now: u64)
        requires
            old(self).wf(),
            old(self).event_count < u64::MAX,
        ensures
            final(self).wf(),
            final(self).event_count == old(self).event_count + 1,
            final(self).event_count % PRUNE_EVERY != 0 ==> seen_view(final(self).last_seen@) == seen_view(
                old(self).last_seen@,
            ),
            forall|i: int|
                0 <= i < final(self).last_seen.len() ==> seen_view(old(self).last_seen@).contains(
                    #[trigger] seen_view(final(self).last_seen@)[i],
                ),
            final(self).event_count % PRUNE_EVERY == 0 ==> forall|i: int|
                0 <= i < final(self).last_seen.len() ==> (#[trigger] final(self).last_seen@[i]).1
                    <= now && now - final(self).last_seen@[i].1 < DEBOUNCE_EXPIRY_MS,
            seen_map(seen_view(final(self).last_seen@)) == tick_map(
                seen_map(seen_view(old(self).last_seen@)),
                final(self).event_count as int,
                now,
            ),
    {
        self.event_count = self.event_count + 1;
        if self.event_count % PRUNE_EVERY == 0 {
            let ghost old_v = seen_view(self.last_seen@);
            let mut kept: Vec<(String, u64)> = Vec::new();
            let mut i: usize = 0;
            while i < self.last_seen.len()
                invariant
                    i <= self.last_seen.len(),
                    old_v == seen_view(self.last_seen@),
                    distinct_paths(old_v),
                    forall|k: int| 0 <= k < kept.len() ==> (#[trigger] kept@[k]).1 <= now && now
                        - kept@[k].1 < DEBOUNCE_EXPIRY_MS,
                    forall|k: int|
                        0 <= k < kept.len() ==> in_prefix(#[trigger] seen_view(kept@)[k], old_v, i as int),
                    distinct_paths(seen_view(kept@)),
                    forall|j: int|
                        0 <= j < i && recent(old_v[j].1, now) ==> in_prefix(
                            #[trigger] old_v[j],
                            seen_view(kept@),
                            kept.len() as int,
                        ),
                decreases self.last_seen.len() - i,
            {
                let ts = self.last_seen[i].1;
                if ts <= now && now - ts < DEBOUNCE_EXPIRY_MS {
                    let e = (copy_string(&self.last_seen[i].0), ts);
                    let ghost before = kept@;
                    kept.push(e);
                    proof {
                        assert(kept@ == before.push(e));
                        let nv = seen_view(kept@);
                        assert(nv =~= seen_view(before).push(old_v[i as int]));
                        assert forall|k: int| 0 <= k < kept.len() implies in_prefix(
                            #[trigger] nv[k],
                            old_v,
                            i + 1,
                        ) by {
                            if k < before.len() {
                                assert(nv[k] == seen_view(before)[k]);
                                assert(in_prefix(seen_view(before)[k], old_v, i as int));
                                let j = choose|j: int| 0 <= j < i && old_v[j] == nv[k];
                                assert(0 <= j < i + 1 && old_v[j] == nv[k]);
                            } else {
                                assert(nv[k] == old_v[i as int]);
                            }
                        }
                        assert forall|j: int|
                            0 <= j < i + 1 && recent(old_v[j].1, now) implies in_prefix(
                            #[trigger] old_v[j],
                            nv,
                            kept.len() as int,
                        ) by {
                            if j < i {
                                let k = choose|k: int| 0 <= k < before.len() && seen_view(before)[k] == old_v[j];
                                assert(nv[k] == seen_view(before)[k]);
                            } else {
                                assert(nv[before.len() as int] == old_v[j]);
                            }
                        }
                        assert forall|k: int, m: int| 0 <= k < m < nv.len() implies nv[k].0 != nv[m].0 by {
                            if m == nv.len() - 1 {
                                assert(nv[k] == seen_view(before)[k]);
                                assert(in_prefix(seen_view(before)[k], old_v, i as int));
                                let j = choose|j: int| 0 <= j < i && old_v[j] == seen_view(before)[k];
                                assert(old_v[j].0 != old_v[i as int].0);
                            } else {
                                assert(nv[k] == seen_view(before)[k]);
                                assert(nv[m] == seen_view(before)[m]);
                            }
                        }
                    }
                } else {
                    proof {
                        let nv = seen_view(kept@);
                        assert forall|k: int| 0 <= k < kept.len() implies in_prefix(
                            #[trigger] nv[k],
                            old_v,
                            i + 1,
                        ) by {
                            assert(in_prefix(nv[k], old_v, i as int));
                            let j = choose|j: int| 0 <= j < i && old_v[j] == nv[k];
                            assert(0 <= j < i + 1 && old_v[j] == nv[k]);
                        }
                    }
                }
                i = i + 1;
            }
            proof {
                assert forall|k: int| 0 <= k < kept.len() implies old_v.contains(
                    #[trigger] seen_view(kept@)[k],
                ) by {
                    assert(in_prefix(seen_view(kept@)[k], old_v, i as int));
                    let j = choose|j: int| 0 <= j < i && old_v[j] == seen_view(kept@)[k];
                    assert(old_v[j] == seen_view(kept@)[k]);
                }
                let kv = seen_view(kept@);
                let mo = seen_map(old_v);
                let mn = seen_map(kv);
                let want = tick_map(mo, self.event_count as int, now);
                assert forall|p: Seq<char>|
                    #[trigger] mn.contains_key(p) == want.contains_key(p) && (mn.contains_key(p)
                        ==> mn[p] == want[p]) by {
                    lemma_seen_at_lookup(old_v, p);
                    lemma_seen_at_lookup(kv, p);
                    match seen_at(kv, p) {
                        Some(t) => {
                            let k = choose|k: int| 0 <= k < kv.len() && kv[k] == (p, t);
                            assert(in_prefix(kv[k], old_v, i as int));
                            let j = choose|j: int| 0 <= j < i && old_v[j] == kv[k];
                            lemma_seen_at_index(old_v, j);
                            assert(kept@[k].1 == kv[k].1);
                        },
                        None => {
                            match seen_at(old_v, p) {
                                Some(t) => {
                                    if recent(t, now) {
                                        let j = choose|j: int| 0 <= j < old_v.len() && old_v[j] == (p, t);
                                        assert(in_prefix(old_v[j], kv, kept.len() as int));
                                        let k = choose|k: int| 0 <= k < kept.len() && kv[k] == old_v[j];
                                        assert(kv[k].0 == p);
                                    }
                                },
                                None => {},
                            }
                        },
                    }
                }
                assert(mn =~= want);
            }
            self.last_seen = kept;
        } else {
            proof {
                let v = seen_view(self.last_seen@);
                assert forall|i: int| 0 <= i < self.last_seen.len() implies v.contains(
                    #[trigger] seen_view(self.last_seen@)[i],
                ) by {
                    assert(v[i] == seen_view(self.last_seen@)[i]);
                }
            }
        }
    }

    /// Whether an event for `path` at time `now` goes through: not when the
    /// path went through less than `DEBOUNCE_MS` before; a path that goes
    /// through is remembered at `now`.
    pub fn let_through(&mut self, path: &str, now: u64) -> (r: bool)
        requires
            old(self).wf(),
        ensures
            final(self).wf(),
            final(self).event_count == old(self).event_count,
            r == !(seen_at(seen_view(old(self).last_seen@), path@) matches Some(t) && t <= now && now
                - t < DEBOUNCE_MS),
            r ==> seen_at(seen_view(final(self).last_seen@), path@) == Some(now),
            !r ==> seen_view(final(self).last_seen@) == seen_view(old(self).last_seen@),
            forall|p: Seq<char>|
                p != path@ ==> seen_at(seen_view(final(self).last_seen@), p) == seen_at(
                    seen_view(old(self).last_seen@),
                    p,
                ),
            r == passes(seen_map(seen_view(old(self).last_seen@)), path@, now),
            seen_map(seen_view(final(self).last_seen@)) == (if r {
                seen_map(seen_view(old(self).last_seen@)).insert(path@, now)
            } else {
                seen_map(seen_view(old(self).last_seen@))
            }),
    {
        proof {
            lemma_passes(seen_view(self.last_seen@), path@, now);
        }
        match self.find(path) {
            Some(i) => {
                let t = self.last_seen[i].1;
                if t <= now && now - t < DEBOUNCE_MS {
                    return false;
                }
                let ghost old_v = seen_view(self.last_seen@);
                let ghost s = self.last_seen@;
                let e = (copy_string(&self.last_seen[i].0), now);
                self.last_seen.set(i, e);
                proof {
                    assert(self.last_seen@ == s.update(i as int, e));
                    let nv = seen_view(self.last_seen@);
                    assert(nv =~= old_v.update(i as int, (path@, now)));
                    lemma_seen_update(old_v, i as int, now);
                    lemma_map_after(old_v, nv, path@, now);
                }
                true
            },
            None => {
                let ghost old_v = seen_view(self.last_seen@);
                let ghost s = self.last_seen@;
                let e = (path.to_string(), now);
                self.last_seen.push(e);
                proof {
                    assert(self.last_seen@ == s.push(e));
                    let nv = seen_view(self.last_seen@);
                    assert(nv =~= old_v.push((path@, now)));
                    lemma_seen_none(old_v, path@);
                    assert(nv.drop_last() =~= old_v);
                    assert forall|p: Seq<char>| p != path@ implies seen_at(nv, p) == seen_at(old_v, p) by {
                        assert(nv.last().0 == path@);
                    }
                    lemma_map_after(old_v, nv, path@, now);
                }
                true
            },
        }
    }
}

/// An input of the debouncer: an event for a path at a time (`let_through`),
/// or an event counted at a time (`count_event`).
pub enum DebounceStep {
    Path(Seq<char>, u64),
    Count(u64),
}

/// The time of a debouncer input.
pub open spec fn step_time(s: DebounceStep) -> u64 {
    match s {
        DebounceStep::Path(_, now) => now,
        DebounceStep::Count(now) => now,
    }
}

/// The times seen and the event count after `steps`, in order, from `m`
/// and `count`.
pub open spec fn debounce_run(m: Map<Seq<char>, u64>, count: int, steps: Seq<DebounceStep>) -> (
    Map<Seq<char>, u64>,
    int,
)
    decreases steps.len(),
{
    if steps.len() == 0 {
        (m, count)
    } else {
        let prev = debounce_run(m, count, steps.drop_last());
        match steps.last() {
            DebounceStep::Path(p, now) => (
                if passes(prev.0, p, now) { prev.0.insert(p, now) } else { prev.0 },
                prev.1,
            ),
            DebounceStep::Count(now) => (tick_map(prev.0, prev.1 + 1, now), prev.1 + 1),
        }
    }
}

proof fn lemma_window_kept(m: Map<Seq<char>, u64>, count: int, path: Seq<char>, t: u64, steps: Seq<DebounceStep>)
    requires
        m.contains_key(path),
        m[path] == t,
        forall|i: int| 0 <= i < steps.len() ==> t <= step_time(#[trigger] steps[i]) && step_time(steps[i]) - t
            < DEBOUNCE_MS,
    ensures
        debounce_run(m, count, steps).0.contains_key(path),
        debounce_run(m, count, steps).0[path] == t,
    decreases steps.len(),
{
    if steps.len() > 0 {
        let init = steps.drop_last();
        assert forall|i: int| 0 <= i < init.len() implies t <= step_time(#[trigger] init[i])
            && step_time(init[i]) - t < DEBOUNCE_MS by {
            assert(init[i] == steps[i]);
        }
        lemma_window_kept(m, count, path, t, init);
        assert(steps.last() == steps[steps.len() - 1]);
    }
}

/// Once an event for `path` goes through at `t`, no later event for that
/// path before `t + DEBOUNCE_MS` goes through, whatever events for other
/// paths or counted events come between within that window.
pub proof fn law_debounce_window(
    m: Map<Seq<char>, u64>,
    count: int,
    path: Seq<char>,
    t: u64,
    steps: Seq<DebounceStep>,
    later: u64,
)
    requires
        passes(m, path, t),
        forall|i: int| 0 <= i < steps.len() ==> t <= step_time(#[trigger] steps[i]) && step_time(steps[i]) - t
            < DEBOUNCE_MS,
        t <= later,
        later - t < DEBOUNCE_MS,
    ensures
        !passes(debounce_run(m, count, seq![DebounceStep::Path(path, t)] + steps).0, path, later),
{
    let first = seq![DebounceStep::Path(path, t)];
    let m0 = m.insert(path, t);
    assert(first.drop_last() =~= Seq::<DebounceStep>::empty());
    assert(first.last() == DebounceStep::Path(path, t));
    assert(debounce_run(m, count, Seq::<DebounceStep>::empty()) == (m, count));
    assert(debounce_run(m, count, first) == (m0, count));
    lemma_run_append(m, count, first, steps);
    lemma_window_kept(m0, count, path, t, steps);
}

proof fn lemma_run_append(m: Map<Seq<char>, u64>, count: int, a: Seq<DebounceStep>, b: Seq<DebounceStep>)
    ensures
        debounce_run(m, count, a + b) == debounce_run(
            debounce_run(m, count, a).0,
            debounce_run(m, count, a).1,
            b,
        ),
    decreases b.len(),
{
    if b.len() == 0 {
        assert(a + b =~= a);
    } else {
        lemma_run_append(m, count, a, b.drop_last());
        assert((a + b).drop_last() =~= a + b.drop_last());
        assert((a + b).last() == b.last());
    }
}

proof fn lemma_passes(v: Seq<(Seq<char>, u64)>, path: Seq<char>, now: u64)
    ensures
        passes(seen_map(v), path, now) == !(seen_at(v, path) matches Some(t) && t <= now && now - t
            < DEBOUNCE_MS),
{
}

proof fn lemma_map_after(ov: Seq<(Seq<char>, u64)>, nv: Seq<(Seq<char>, u64)>, path: Seq<char>, now: u64)
    requires
        seen_at(nv, path) == Some(now),
        forall|p: Seq<char>| p != path ==> seen_at(nv, p) == seen_at(ov, p),
    ensures
        seen_map(nv) == seen_map(ov).insert(path, now),
{
    assert(seen_map(nv) =~= seen_map(ov).insert(path, now));
}

proof fn lemma_seen_none(v: Seq<(Seq<char>, u64)>, p: Seq<char>)
    requires
        seen_at(v, p) is None,
    ensures
        forall|i: int| 0 <= i < v.len() ==> v[i].0 != p,
    decreases v.len(),
{
    if v.len() > 0 {
        lemma_seen_none(v.drop_last(), p);
        assert forall|i: int| 0 <= i < v.len() implies v[i].0 != p by {
            if i < v.len() - 1 {
                assert(v.drop_last()[i] == v[i]);
            }
        }
    }
}

proof fn lemma_seen_at_index(v: Seq<(Seq<char>, u64)>, i: int)
    requires
        distinct_paths(v),
        0 <= i < v.len(),
    ensures
        seen_at(v, v[i].0) == Some(v[i].1),
    decreases v.len(),
{
    if i < v.len() - 1 {
        assert(v.drop_last()[i] == v[i]);
        lemma_seen_at_index(v.drop_last(), i);
    }
}

proof fn lemma_seen_absent(v: Seq<(Seq<char>, u64)>, p: Seq<char>)
    requires
        forall|i: int| 0 <= i < v.len() ==> v[i].0 != p,
    ensures
        seen_at(v, p) is None,
    decreases v.len(),
{
    if v.len() > 0 {
        lemma_seen_absent(v.drop_last(), p);
    }
}

proof fn lemma_seen_at_lookup(v: Seq<(Seq<char>, u64)>, p: Seq<char>)
    requires
        distinct_paths(v),
    ensures
        match seen_at(v, p) {
            Some(t) => exists|i: int| 0 <= i < v.len() && v[i] == (p, t),
            None => forall|i: int| 0 <= i < v.len() ==> v[i].0 != p,
        },
    decreases v.len(),
{
    if v.len() > 0 {
        lemma_seen_at_lookup(v.drop_last(), p);
        if v.last().0 == p {
            assert(v[v.len() - 1] == (p, v.last().1));
        } else {
            match seen_at(v.drop_last(), p) {
                Some(t) => {
                    let i = choose|i: int| 0 <= i < v.drop_last().len() && v.drop_last()[i] == (p, t);
                    assert(v[i] == (p, t));
                },
                None => {
                    assert forall|i: int| 0 <= i < v.len() implies v[i].0 != p by {
                        if i < v.len() - 1 {
                            assert(v.drop_last()[i] == v[i]);
                        }
                    }
                },
            }
        }
    }
}

proof fn lemma_seen_update(v: Seq<(Seq<char>, u64)>, i: int, now: u64)
    requires
        distinct_paths(v),
        0 <= i < v.len(),
    ensures
        distinct_paths(v.update(i, (v[i].0, now))),
        seen_at(v.update(i, (v[i].0, now)), v[i].0) == Some(now),
        forall|p: Seq<char>| p != v[i].0 ==> seen_at(v.update(i, (v[i].0, now)), p) == seen_at(v, p),
{
    let w = v.update(i, (v[i].0, now));
    assert(distinct_paths(w));
    lemma_seen_at_index(w, i);
    assert forall|p: Seq<char>| p != v[i].0 implies seen_at(w, p) == seen_at(v, p) by {
        lemma_seen_at_lookup(v, p);
        match seen_at(v, p) {
            Some(t) => {
                let j = choose|j: int| 0 <= j < v.len() && v[j] == (p, t);
                assert(w[j] == v[j]);
                lemma_seen_at_index(w, j);
            },
            None => {
                lemma_seen_absent(w, p);
            },
        }
    }
}

/// What a file event leads to.
#[derive(Debug, Clone, PartialEq)]
pub enum EventAction {
    /// Nothing: the path is not in a watched folder, not a `.typ` file, not
    /// a regular file, or ignored.
    Skip,
    /// Index the file, under this watch root.
    Index(String),
    /// The file is gone: remove it and its recorded error.
    Remove,
}

/// The first watch root that the path lies under.
pub open spec fn watch_root_of(path: Seq<char>, roots: Seq<Seq<char>>, starts: spec_fn(Seq<char>) -> bool) -> Option<Seq<char>>
    decreases roots.len(),
{
    if roots.len() == 0 {
        None
    } else {
        match watch_root_of(path, roots.drop_last(), starts) {
            Some(r) => Some(r),
            None => if starts(roots.last()) {
                Some(roots.last())
            } else {
                None
            },
        }
    }
}

/// `Path::starts_with` (component-wise prefix).
pub uninterp spec fn path_starts_with(path: Seq<char>, base: Seq<char>) -> bool;

/// Calls `Path::starts_with`.  Trusted: the result is the named
/// `path_starts_with`.
#[verifier::external_body]
fn starts_with_path(path: &str, base: &str) -> (r: bool)
    ensures
        r == path_starts_with(path@, base@),
{
    std::path::Path::new(path).starts_with(base)
}

/// The first watch root that a path lies under, if any.
pub fn find_watch_root(path: &str, roots: &Vec<String>) -> (r: Option<String>)
    ensures
        crate::text::opt_view(&r) == watch_root_of(
            path@,
            strs(roots@),
            |b: Seq<char>| path_starts_with(path@, b),
        ),
{
    let ghost sr = strs(roots@);
    let ghost f = |b: Seq<char>| path_starts_with(path@, b);
    let mut i: usize = 0;
    while i < roots.len()
        invariant
            i <= roots.len(),
            sr == strs(roots@),
            f == (|b: Seq<char>| path_starts_with(path@, b)),
            watch_root_of(path@, sr.take(i as int), f) is None,
        decreases roots.len() - i,
    {
        proof {
            assert(sr.take(i + 1).drop_last() =~= sr.take(i as int));
            assert(sr.take(i + 1).last() == roots@[i as int]@);
        }
        if starts_with_path(path, roots[i].as_str()) {
            proof {
                lemma_root_prefix(path@, sr, f, i + 1);
            }
            return Some(copy_string(&roots[i]));
        }
        i = i + 1;
    }
    assert(sr.take(roots.len() as int) =~= sr);
    None
}

proof fn lemma_root_prefix(path: Seq<char>, roots: Seq<Seq<char>>, f: spec_fn(Seq<char>) -> bool, k: int)
    requires
        0 <= k <= roots.len(),
        watch_root_of(path, roots.take(k), f) is Some,
    ensures
        watch_root_of(path, roots, f) == watch_root_of(path, roots.take(k), f),
    decreases roots.len(),
{
    if k == roots.len() {
        assert(roots.take(k) =~= roots);
    } else {
        assert(roots.drop_last().take(k) =~= roots.take(k));
        lemma_root_prefix(path, roots.drop_last(), f, k);
    }
}

/// What an event for a path under a watch root leads to: nothing unless
/// it is a `.typ` file; an existing regular file that is not ignored is
/// indexed; a file that no longer exists is removed.
pub open spec fn event_action_spec(path: Seq<char>, exists: bool, is_file: bool, ignored: bool) -> int {
    if !typ_extension(path) {
        0
    } else if exists {
        if !is_file || ignored {
            0
        } else {
            1
        }
    } else {
        2
    }
}

/// Decides what an event for a path under `watch_root` leads to.
pub fn event_action(path: &str, watch_root: &str, exists: bool, is_file: bool, ignored: bool) -> (r: EventAction)
    ensures
        event_action_spec(path@, exists, is_file, ignored) == 0 ==> r is Skip,
        event_action_spec(path@, exists, is_file, ignored) == 1 ==> (r matches EventAction::Index(w)
            && w@ == watch_root@),
        event_action_spec(path@, exists, is_file, ignored) == 2 ==> r is Remove,
{
    if !has_typ_extension(path) {
        return EventAction::Skip;
    }
    if exists {
        if !is_file || ignored {
            EventAction::Skip
        } else {
            EventAction::Index(watch_root.to_string())
        }
    } else {
        EventAction::Remove
    }
}

// ---------------------------------------------------------------------------
// Config reloads
// ---------------------------------------------------------------------------

/// The watched folders that stay and those that go, in order, when only
/// the folders in `keep` remain.
pub open spec fn split_kept(current: Seq<Seq<char>>, keep: Seq<Seq<char>>) -> (Seq<Seq<char>>, Seq<Seq<char>>)
    decreases current.len(),
{
    if current.len() == 0 {
        (Seq::empty(), Seq::empty())
    } else {
        let (k, r) = split_kept(current.drop_last(), keep);
        if keep.contains(current.last()) {
            (k.push(current.last()), r)
        } else {
            (k, r.push(current.last()))
        }
    }
}

fn contains_str(v: &Vec<String>, s: &String) -> (r: bool)
    ensures
        r == strs(v@).contains(s@),
{
    let mut i: usize = 0;
    while i < v.len()
        invariant
            i <= v.len(),
            forall|j: int| 0 <= j < i ==> strs(v@)[j] != s@,
        decreases v.len() - i,
    {
        assert(strs(v@)[i as int] == v@[i as int]@);
        if str_eq(v[i].as_str(), s.as_str()) {
            return true;
        }
        i = i + 1;
    }
    false
}

/// Splits the watched folders into those in `keep` and those to stop
/// watching, each in order.
pub fn split_watched(current: &Vec<String>, keep: &Vec<String>) -> (r: (Vec<String>, Vec<String>))
    ensures
        (strs(r.0@), strs(r.1@)) == split_kept(strs(current@), strs(keep@)),
{
    let ghost sc = strs(current@);
    let mut kept: Vec<String> = Vec::new();
    let mut removed: Vec<String> = Vec::new();
    let mut i: usize = 0;
    while i < current.len()
        invariant
            i <= current.len(),
            sc == strs(current@),
            (strs(kept@), strs(removed@)) == split_kept(sc.take(i as int), strs(keep@)),
        decreases current.len() - i,
    {
        proof {
            assert(sc.take(i + 1).drop_last() =~= sc.take(i as int));
            assert(sc.take(i + 1).last() == current@[i as int]@);
        }
        let c = copy_string(&current[i]);
        if contains_str(keep, &current[i]) {
            let ghost before = kept@;
            kept.push(c);
            assert(kept@ == before.push(c));
            assert(strs(kept@) =~= strs(before).push(c@));
        } else {
            let ghost before = removed@;
            removed.push(c);
            assert(removed@ == before.push(c));
            assert(strs(removed@) =~= strs(before).push(c@));
        }
        i = i + 1;
    }
    assert(sc.take(current.len() as int) =~= sc);
    (kept, removed)
}

/// Whether a folder is not watched yet.
pub fn is_new_root(current: &Vec<String>, path: &String) -> (r: bool)
    ensures
        r == !strs(current@).contains(path@),
{
    !contains_str(current, path)
}

// ---------------------------------------------------------------------------
// Ignore files
// ---------------------------------------------------------------------------

/// The folders from `current` up to `root` (or to the top), deepest
/// first: each folder's parent follows it until `root` or a folder with no
/// other parent.
pub open spec fn folders_up(current: Seq<char>, root: Seq<char>) -> Seq<Seq<char>>
    decreases current.len(),
{
    if same_path(current, root) {
        seq![current]
    } else {
        match parent_of(current) {
            Some(p) => if !same_path(p, current) && p.len() < current.len() {
                seq![current] + folders_up(p, root)
            } else {
                seq![current]
            },
            None => seq![current],
        }
    }
}

/// The folders whose ignore files apply to `file` under `root`, from the
/// root (lowest precedence) down to the file's folder.
pub open spec fn ignore_dirs_spec(root: Seq<char>, file: Seq<char>) -> Seq<Seq<char>> {
    let target = match parent_of(file) {
        Some(p) => p,
        None => root,
    };
    folders_up(target, root).reverse()
}

/// The folders whose `.gitignore` and `.mindtapeignore` apply to a file,
/// from the watch root down to the file's folder.
pub fn ignore_dirs(root: &str, file: &str) -> (r: Vec<String>)
    ensures
        strs(r@) == ignore_dirs_spec(root@, file@),
{
    let target = match parent(file) {
        Some(p) => p,
        None => root.to_string(),
    };
    let mut dirs: Vec<String> = Vec::new();
    let mut current = target;
    let ghost start = current@;
    loop
        invariant_except_break
            strs(dirs@) + folders_up(current@, root@) == folders_up(start, root@),
        ensures
            strs(dirs@) == folders_up(start, root@),
        decreases current@.len(),
    {
        let c = copy_string(&current);
        let ghost before = dirs@;
        dirs.push(c);
        proof {
            assert(dirs@ == before.push(c));
            assert(strs(dirs@) =~= strs(before).push(c@));
        }
        if paths_equal(current.as_str(), root) {
            assert(folders_up(current@, root@) == seq![current@]);
            assert(strs(dirs@) =~= strs(before) + folders_up(current@, root@));
            break;
        }
        match parent(current.as_str()) {
            Some(p) => {
                if !paths_equal(p.as_str(), current.as_str()) && p.unicode_len() < current.unicode_len() {
                    assert(strs(dirs@) + folders_up(p@, root@) =~= strs(before) + folders_up(current@, root@));
                    current = p;
                } else {
                    assert(strs(dirs@) =~= strs(before) + folders_up(current@, root@));
                    break;
                }
            },
            None => {
                assert(strs(dirs@) =~= strs(before) + folders_up(current@, root@));
                break;
            },
        }
    }
    let mut out: Vec<String> = Vec::new();
    let ghost d = strs(dirs@);
    let mut k = dirs.len();
    while k > 0
        invariant
            k <= dirs.len(),
            d == strs(dirs@),
            strs(out@) == d.skip(k as int).reverse(),
        decreases k,
    {
        let c = copy_string(&dirs[k - 1]);
        let ghost before = out@;
        out.push(c);
        proof {
            assert(out@ == before.push(c));
            assert(d[k - 1] == dirs@[k - 1]@);
            let prev = d.skip(k as int).reverse();
            let want = d.skip(k - 1).reverse();
            assert(strs(out@) =~= prev.push(c@));
            assert(want.len() == prev.len() + 1);
            assert forall|j: int| 0 <= j < want.len() implies strs(out@)[j] == want[j] by {
                if j < prev.len() {
                    assert(prev[j] == d.skip(k as int)[prev.len() - 1 - j]);
                    assert(want[j] == d.skip(k - 1)[want.len() - 1 - j]);
                } else {
                    assert(want[j] == d.skip(k - 1)[0]);
                }
            }
            assert(strs(out@) =~= want);
        }
        k = k - 1;
    }
    assert(d.skip(0) =~= d);
    out
}


// ---------------------------------------------------------------------------
// One step of the event loop
// ---------------------------------------------------------------------------

/// What the watcher does with one path of a change event.
#[derive(Debug, Clone, Copy, PartialEq, Eq, Structural)]
pub enum PathAction {
    /// The path is inside a `.git` folder.
    Ignore,
    /// The path went through less than `DEBOUNCE_MS` ago.
    Debounced,
    /// The path is a configuration file: reload the configuration.
    ReloadConfig,
    /// Any other path: index or remove the file.
    Handle,
}

/// Whether `p` is one of the configuration files.
pub open spec fn is_config_path(configs: Seq<Seq<char>>, p: Seq<char>) -> bool {
    exists|i: int| 0 <= i < configs.len() && same_path(#[trigger] configs[i], p)
}

/// The action for one path at `now` and the times seen afterwards: paths
/// inside `.git` are ignored, then a path seen within the debounce window
/// is dropped, then a configuration file reloads the configuration, and
/// any other path is handled; a path that goes through is remembered.
pub open spec fn path_step(m: Map<Seq<char>, u64>, p: Seq<char>, now: u64, configs: Seq<Seq<char>>) -> (
    PathAction,
    Map<Seq<char>, u64>,
) {
    if in_dotgit(p) {
        (PathAction::Ignore, m)
    } else if !passes(m, p, now) {
        (PathAction::Debounced, m)
    } else if is_config_path(configs, p) {
        (PathAction::ReloadConfig, m.insert(p, now))
    } else {
        (PathAction::Handle, m.insert(p, now))
    }
}

/// The actions for the paths of one event, in order, and the times seen
/// afterwards.
pub open spec fn paths_step(m: Map<Seq<char>, u64>, ps: Seq<Seq<char>>, now: u64, configs: Seq<Seq<char>>) -> (
    Seq<PathAction>,
    Map<Seq<char>, u64>,
)
    decreases ps.len(),
{
    if ps.len() == 0 {
        (Seq::empty(), m)
    } else {
        let prev = paths_step(m, ps.drop_last(), now, configs);
        let last = path_step(prev.1, ps.last(), now, configs);
        (prev.0.push(last.0), last.1)
    }
}

/// The times seen and event count an event starts from: the debouncer's,
/// or a fresh start once the count can grow no further.
pub open spec fn event_start(m: Map<Seq<char>, u64>, count: u64) -> (Map<Seq<char>, u64>, int) {
    if count == u64::MAX {
        (Map::empty(), 0)
    } else {
        (m, count as int)
    }
}

fn is_config_file(configs: &Vec<String>, p: &str) -> (r: bool)
    ensures
        r == is_config_path(strs(configs@), p@),
{
    let mut i: usize = 0;
    while i < configs.len()
        invariant
            i <= configs.len(),
            forall|k: int| 0 <= k < i ==> !same_path(#[trigger] strs(configs@)[k], p@),
        decreases configs.len() - i,
    {
        if paths_equal(configs[i].as_str(), p) {
            assert(strs(configs@)[i as int] == configs@[i as int]@);
            return true;
        }
        assert(strs(configs@)[i as int] == configs@[i as int]@);
        i = i + 1;
    }
    false
}

impl Debouncer {
    /// Decides what to do with one path of a change event at `now`.
    pub fn decide_path(&mut self, path: &str, now: u64, configs: &Vec<String>) -> (r: PathAction)
        requires
            old(self).wf(),
        ensures
            final(self).wf(),
            final(self).event_count == old(self).event_count,
            (r, seen_map(seen_view(final(self).last_seen@))) == path_step(
                seen_map(seen_view(old(self).last_seen@)),
                path@,
                now,
                strs(configs@),
            ),
    {
        if is_inside_dotgit(path) {
            return PathAction::Ignore;
        }
        if !self.let_through(path, now) {
            return PathAction::Debounced;
        }
        if is_config_file(configs, path) {
            PathAction::ReloadConfig
        } else {
            PathAction::Handle
        }
    }

    /// One step of the event loop: an event of kind `class` for `paths` at
    /// `now` gives the action for each path.  Events other than changes
    /// give none and leave the debouncer as it was; a change is counted
    /// (starting afresh once the count can grow no further) and each path
    /// decided in order.
    pub fn on_event(&mut self, class: EventClass, paths: &Vec<String>, now: u64, configs: &Vec<String>) -> (r: Vec<
        PathAction,
    >)
        requires
            old(self).wf(),
        ensures
            final(self).wf(),
            !(class == EventClass::Change) ==> r.len() == 0 && *final(self) == *old(self),
            class == EventClass::Change ==> ({
                let st = event_start(seen_map(seen_view(old(self).last_seen@)), old(self).event_count);
                let out = paths_step(tick_map(st.0, st.1 + 1, now), strs(paths@), now, strs(configs@));
                &&& r@ == out.0
                &&& seen_map(seen_view(final(self).last_seen@)) == out.1
                &&& final(self).event_count == st.1 + 1
            }),
    {
        let mut actions: Vec<PathAction> = Vec::new();
        if !event_matters(class) {
            return actions;
        }
        if self.event_count == u64::MAX {
            *self = Debouncer::new();
            proof {
                assert(seen_map(seen_view(self.last_seen@)) =~= Map::<Seq<char>, u64>::empty());
            }
        }
        self.count_event(now);
        let ghost ec = self.event_count;
        let ghost m0 = seen_map(seen_view(self.last_seen@));
        let ghost sp = strs(paths@);
        let ghost cs = strs(configs@);
        let mut i: usize = 0;
        while i < paths.len()
            invariant
                i <= paths.len(),
                self.wf(),
                sp == strs(paths@),
                cs == strs(configs@),
                (actions@, seen_map(seen_view(self.last_seen@))) == paths_step(m0, sp.take(i as int), now, cs),
                self.event_count == ec,
            decreases paths.len() - i,
        {
            proof {
                assert(sp.take(i + 1).drop_last() =~= sp.take(i as int));
                assert(sp.take(i + 1).last() == paths@[i as int]@);
            }
            let ghost before = actions@;
            let a = self.decide_path(paths[i].as_str(), now, configs);
            actions.push(a);
            proof {
                assert(actions@ == before.push(a));
            }
            i = i + 1;
        }
        assert(sp.take(paths.len() as int) =~= sp);
        actions
    }
}

}
