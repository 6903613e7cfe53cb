use vstd::prelude::*;

use crate::table::{flagged_keys, KeyedTable};

verus! {

/// How long (in milliseconds) an entry is kept after its last action.
pub const RETENTION_MS: u64 = 60_000;

/// Milliseconds from `last` to `now`; zero when `now` is not later.
pub open spec fn elapsed(now: u64, last: u64) -> int {
    if now >= last {
        now - last
    } else {
        0
    }
}

/// Whether an action on `path` at time `now` goes ahead: there was no
/// earlier action, or the last one lies more than `window` ago.
pub open spec fn actionable(last: Map<Seq<char>, u64>, path: Seq<char>, now: u64, window: u64) -> bool {
    !last.contains_key(path) || elapsed(now, last[path]) > window
}

/// The entries that a sweep at `now` keeps: those at most `RETENTION_MS` old.
pub open spec fn retained(last: Map<Seq<char>, u64>, now: u64) -> Set<Seq<char>> {
    Set::new(|k: Seq<char>| last.contains_key(k) && elapsed(now, last[k]) <= RETENTION_MS)
}

/// Suppresses repeated actions on one path within a time window.
pub struct Debouncer {
    /// Time (milliseconds) of the last accepted action, per path.
    pub last_events: KeyedTable<u64>,
    /// The window, in milliseconds.
    pub debounce_ms: u64,
}

fn elapsed_ms(now: u64, last: u64) -> (r: u64)
    ensures
        r == elapsed(now, last),
{
    if now >= last {
        now - last
    } else {
        0
    }
}

impl Debouncer {
    pub fn new(debounce_ms: u64) -> (r: Debouncer)
        ensures
            r.last_events@ == Map::<Seq<char>, u64>::empty(),
            r.debounce_ms == debounce_ms,
    {
        Debouncer { last_events: KeyedTable::new(), debounce_ms }
    }

    /// Whether to act on `path` now; an accepted action is recorded at `now`,
    /// a suppressed one leaves the state as it was.
    pub fn should_process(&mut self, path: &String, now: u64) -> (r: bool)
        ensures
            r == actionable(old(self).last_events@, path@, now, old(self).debounce_ms),
            final(self).last_events@ == if r {
                old(self).last_events@.insert(path@, now)
            } else {
                old(self).last_events@
            },
            final(self).debounce_ms == old(self).debounce_ms,
    {
        match self.last_events.get(path) {
            Some(last) => {
                if elapsed_ms(now, *last) <= self.debounce_ms {
                    return false;
                }
            },
            None => {},
        }
        self.last_events.insert(path.clone(), now);
        true
    }

    /// Forgets the paths whose last action lies more than `RETENTION_MS` ago.
    pub fn cleanup(&mut self, now: u64)
        ensures
            final(self).last_events@ == old(self).last_events@.restrict(retained(old(self).last_events@, now)),
            final(self).debounce_ms == old(self).debounce_ms,
    {
        let n = self.last_events.len();
        let ghost keys = self.last_events.keys();
        let ghost m = self.last_events@;
        let mut keep: Vec<bool> = Vec::new();
        let mut i: usize = 0;
        while i < n
            invariant
                i <= n,
                n == keys.len(),
                keys == self.last_events.keys(),
                m == self.last_events@,
                keep@.len() == i,
                forall|j: int| 0 <= j < i ==> #[trigger] keep@[j] == (elapsed(now, m[keys[j]]) <= RETENTION_MS),
            decreases n - i,
        {
            let (_, last) = self.last_events.entry_at(i);
            keep.push(elapsed_ms(now, *last) <= RETENTION_MS);
            i += 1;
        }
        self.last_events.retain_flags(&keep);
        proof {
            assert(m.restrict(flagged_keys(keys, keep@)) =~= m.restrict(retained(m, now))) by {
                assert forall|k: Seq<char>| m.contains_key(k) implies
                    (#[trigger] flagged_keys(keys, keep@).contains(k) <==> retained(m, now).contains(k)) by {
                    assert(keys.to_set().contains(k));
                    let j = choose|j: int| 0 <= j < keys.len() && keys[j] == k;
                    assert(keep@[j] == (elapsed(now, m[keys[j]]) <= RETENTION_MS));
                }
            }
        }
    }
}

/// Two actions on a new path within the window give `true` then `false`;
/// the suppressed one leaves the state alone, so an action once the window
/// since the first has passed gives `true` again.
pub proof fn lemma_debounce_suppresses_repeats(
    last: Map<Seq<char>, u64>,
    path: Seq<char>,
    window: u64,
    first: u64,
    second: u64,
    third: u64,
)
    requires
        !last.contains_key(path),
        first <= second,
        second - first <= window,
        first <= third,
        third - first > window,
    ensures
        actionable(last, path, first, window),
        !actionable(last.insert(path, first), path, second, window),
        actionable(last.insert(path, first), path, third, window),
{
}

} // verus!
