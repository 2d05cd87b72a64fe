//! What a cache holds, and what each operation makes of it.

use crate::time::{elapsed_between, MAX_SPAN, MIN_POINT, NANOS_PER_SEC};
use vstd::prelude::*;

verus! {

/// How many seconds a request counts as recent activity.
pub const ACTIVITY_WINDOW_SECS: u64 = 3600;

/// A response, and when it was fetched.
pub struct Entry<V> {
    pub value: V,
    pub fetched_at: int,
}

/// The state of a cache.
#[verifier::ext_equal]
#[verifier::reject_recursive_types(Id)]
pub struct CacheState<Id, V> {
    /// For how long a response is fresh.
    pub ttl: nat,
    /// The responses by the identity of their key.
    pub entries: Map<Id, Entry<V>>,
    /// How many requests were answered out of the cache.
    pub hits: nat,
    /// How many requests were made.
    pub requests: nat,
    /// When the recent requests were made, in the order in which they were made.
    pub activity: Seq<int>,
}

/// The number after `count` on a counter that starts over once it has reached `usize::MAX`.
pub open spec fn next_count(count: nat) -> nat {
    if count >= usize::MAX {
        0
    } else {
        count + 1
    }
}

/// Whether a request made at `made_at` is no longer recent when the clock shows `reading`.
pub open spec fn outdated(made_at: int, reading: int) -> bool {
    elapsed_between(made_at, reading) > ACTIVITY_WINDOW_SECS * NANOS_PER_SEC
}

/// What is left of the requests once the outdated ones at the front are dropped. The clock is read
/// anew for each request that is looked at.
pub open spec fn pruned(activity: Seq<int>, readings: Seq<int>) -> Seq<int>
    decreases activity.len(),
{
    if activity.len() > 0 && readings.len() > 0 && outdated(activity[0], readings[0]) {
        pruned(activity.drop_first(), readings.drop_first())
    } else {
        activity
    }
}

/// Whether points in time come in the order in which they lie.
pub open spec fn in_order(points: Seq<int>) -> bool {
    forall|i: int, j: int| 0 <= i <= j < points.len() ==> points[i] <= points[j]
}

/// A point that does not lie before the last one leaves the points in order.
pub proof fn lemma_in_order_push(points: Seq<int>, point: int)
    requires
        in_order(points),
        points.len() > 0 ==> points.last() <= point,
    ensures
        in_order(points.push(point)),
{
}

/// If the first `n` requests are found outdated, and none is left after them, or the next one is
/// found recent, or the clock is not read again, then just these `n` are dropped.
pub proof fn lemma_pruned(activity: Seq<int>, readings: Seq<int>, n: int)
    requires
        0 <= n <= activity.len(),
        n <= readings.len(),
        forall|i: int| 0 <= i < n ==> outdated(#[trigger] activity[i], readings[i]),
        n == activity.len() || n == readings.len() || !outdated(activity[n], readings[n]),
    ensures
        pruned(activity, readings) == activity.skip(n),
    decreases n,
{
    if n > 0 {
        let rest = activity.drop_first();
        assert(outdated(activity[0], readings[0]));
        assert forall|i: int| 0 <= i < n - 1 implies outdated(
            #[trigger] rest[i],
            readings.drop_first()[i],
        ) by {
            assert(rest[i] == activity[i + 1]);
        }
        lemma_pruned(rest, readings.drop_first(), n - 1);
        assert(rest.skip(n - 1) =~= activity.skip(n));
    } else {
        assert(activity.skip(0) =~= activity);
    }
}

/// The requests that are still recent when the clock shows `reading`.
pub open spec fn recent(activity: Seq<int>, reading: int) -> Seq<int> {
    activity.filter(|made_at: int| !outdated(made_at, reading))
}

impl<Id, V> CacheState<Id, V> {
    /// A cache that holds nothing and was asked for nothing.
    pub open spec fn empty(ttl: nat) -> Self {
        CacheState {
            ttl,
            entries: Map::empty(),
            hits: 0,
            requests: 0,
            activity: Seq::empty(),
        }
    }

    /// Whether the response under a key has to be fetched: there is none, or it is older than the
    /// time to live.
    pub open spec fn stale(self, id: Id, now: int) -> bool {
        !self.entries.contains_key(id) || elapsed_between(self.entries[id].fetched_at, now)
            > self.ttl
    }

    /// Twice the time to live is a span, and there is a point in time that long before `now`. A
    /// time to live that is longer is not supported.
    pub open spec fn can_look_back(self, now: int) -> bool {
        &&& 2 * self.ttl <= MAX_SPAN
        &&& now - 2 * self.ttl >= MIN_POINT
    }

    /// A response was stored under a key.
    pub open spec fn set(self, id: Id, value: V, now: int) -> Self {
        CacheState { entries: self.entries.insert(id, Entry { value, fetched_at: now }), ..self }
    }

    /// Whether some response is stale.
    pub open spec fn any_stale(self, now: int) -> bool {
        exists|id: Id| self.entries.contains_key(id) && #[trigger] self.stale(id, now)
    }

    /// The stale responses were dropped.
    pub open spec fn evicted(self, now: int) -> Self {
        CacheState {
            entries: Map::new(
                |id: Id| self.entries.contains_key(id) && !self.stale(id, now),
                |id: Id| self.entries[id],
            ),
            ..self
        }
    }

    /// A request was counted.
    pub open spec fn recorded(self, now: int) -> Self {
        CacheState {
            requests: next_count(self.requests),
            activity: self.activity.push(now),
            ..self
        }
    }

    /// A key was requested at `now`; the clock showed `readings` while outdated requests were
    /// dropped.
    pub open spec fn looked_up(self, id: Id, now: int, readings: Seq<int>) -> Self {
        CacheState {
            hits: if self.stale(id, now) {
                self.hits
            } else {
                next_count(self.hits)
            },
            activity: pruned(self.recorded(now).activity, readings),
            ..self.recorded(now)
        }
    }
}

} // verus!
