//! A cache of responses that are fresh for a while and then fetched again.

use crate::clock::{
    furthest, later_of, law_times_never_go_back, lemma_times_push, times, Clock,
};
use crate::key::CacheKey;
use crate::key_map::{ids, KeyMap};
use crate::state::{
    in_order, lemma_pruned, next_count, outdated, recent, CacheState, Entry,
    ACTIVITY_WINDOW_SECS,
};
use crate::time::{elapsed_between, Duration, Instant, NANOS_PER_SEC};
use std::collections::VecDeque;
use vstd::prelude::*;

verus! {

/// A cache of responses by key. A response is fresh for the cache's time to live.
#[verifier::reject_recursive_types(K)]
pub struct RESTfulCache<K: CacheKey, V> {
    responses: KeyMap<K, V>,
    fetched_at: KeyMap<K, Instant>,
    time_to_live: Duration,
    clock: Clock,
    latest: Instant,
    hits: usize,
    requests: usize,
    activity: VecDeque<Instant>,
}

/// What a request comes to.
pub enum Lookup<K, V> {
    /// The cache has a fresh response.
    Hit(V),
    /// The response under this key has to be fetched.
    Fetch(K),
}

/// What to do once a response was fetched.
pub struct Settled<K, V, E> {
    /// What to store in the cache.
    pub update: Option<(K, V)>,
    /// What to answer the request.
    pub reply: Result<V, E>,
}

impl<K: CacheKey, V> View for RESTfulCache<K, V> {
    type V = CacheState<K::Id, V>;

    closed spec fn view(&self) -> CacheState<K::Id, V> {
        CacheState {
            ttl: self.time_to_live@,
            entries: Map::new(
                |id: K::Id| self.responses@.contains_key(id),
                |id: K::Id|
                    Entry { value: self.responses@[id], fetched_at: self.fetched_at@[id]@ },
            ),
            hits: self.hits as nat,
            requests: self.requests as nat,
            activity: points(self.activity@),
        }
    }
}

impl<K: CacheKey, V> RESTfulCache<K, V> {
    /// Every response has the time at which it was fetched, and every such time a response.
    pub closed spec fn wf(self) -> bool {
        &&& self.responses.wf()
        &&& self.fetched_at.wf()
        &&& self.responses@.dom() == self.fetched_at@.dom()
    }

    /// The clock by which the cache goes.
    pub closed spec fn clock(self) -> Clock {
        self.clock
    }

    /// The latest point in time that an operation went by. No operation goes by an earlier one.
    pub closed spec fn latest(self) -> int {
        self.latest@
    }

    /// The clock was read once since `before`, and the latest point is what it showed, unless a
    /// later one was gone by before.
    pub open spec fn read_once(self, before: Self) -> bool {
        let reading = self.clock().shown().last();
        &&& self.clock().started() == before.clock().started()
        &&& self.clock().shown() == before.clock().shown().push(reading)
        &&& before.clock().shows(reading)
        &&& self.latest() == later_of(before.latest(), reading)
    }

    /// What the clock has shown since `before`.
    pub open spec fn shown_since(self, before: Self) -> Seq<int> {
        self.clock().shown().skip(before.clock().shown().len() as int)
    }

    /// A cache without responses.
    pub fn new(time_to_live: Duration) -> (r: Self)
        ensures
            r.wf(),
            r@ == CacheState::<K::Id, V>::empty(time_to_live@),
            r.clock().starts_now(),
            r.clock().shown() == Seq::<int>::empty(),
            r.latest() == 0,
    {
        let r = RESTfulCache {
            responses: KeyMap::new(),
            fetched_at: KeyMap::new(),
            time_to_live,
            clock: Clock::start(),
            latest: Instant::origin(),
            hits: 0,
            requests: 0,
            activity: VecDeque::new(),
        };
        assert(r@ =~= CacheState::<K::Id, V>::empty(time_to_live@));
        r
    }

    /// The responses by key.
    pub fn responses(&self) -> (r: &KeyMap<K, V>)
        requires
            self.wf(),
        ensures
            r.wf(),
            r@ == self@.entries.map_values(|entry: Entry<V>| entry.value),
    {
        assert(self.responses@ =~= self@.entries.map_values(|entry: Entry<V>| entry.value));
        &self.responses
    }

    /// When the responses were fetched, by key.
    pub fn fetched_at(&self) -> (r: &KeyMap<K, Instant>)
        requires
            self.wf(),
        ensures
            r.wf(),
            r@.map_values(|at: Instant| at@) == self@.entries.map_values(
                |entry: Entry<V>| entry.fetched_at,
            ),
    {
        assert(self.fetched_at@.map_values(|at: Instant| at@) =~= self@.entries.map_values(
            |entry: Entry<V>| entry.fetched_at,
        ));
        &self.fetched_at
    }

    /// Reads the clock: what it shows, unless an operation went by a later point already.
    pub fn now(&mut self) -> (r: Instant)
        requires
            old(self).wf(),
        ensures
            final(self).wf(),
            final(self)@ == old(self)@,
            final(self).read_once(*old(self)),
            r@ == final(self).latest(),
    {
        let reading = self.clock.read();
        if self.latest.is_before(&reading) {
            self.latest = reading;
        }
        self.latest
    }

    /// Whether a point in time lies twice the time to live before `now`.
    pub fn can_look_back(&self, now: Instant) -> (r: bool)
        ensures
            r == self@.can_look_back(now@),
    {
        match self.time_to_live.checked_double() {
            Some(two_ttl) => now.checked_sub(two_ttl).is_some(),
            None => false,
        }
    }

    /// Stores a response that was fetched at `now`, in place of the one that was there.
    pub fn set_at(&mut self, key: K, value: V, now: Instant)
        requires
            old(self).wf(),
        ensures
            final(self).wf(),
            final(self).clock() == old(self).clock(),
            final(self).latest() == old(self).latest(),
            final(self)@ == old(self)@.set(key.id(), value, now@),
    {
        self.responses.insert(key.duplicate(), value);
        self.fetched_at.insert(key, now);
        assert(self@ =~= old(self)@.set(key.id(), value, now@));
    }

    /// Stores a response that has just been fetched, in place of the one that was there.
    pub fn set(&mut self, key: K, value: V)
        requires
            old(self).wf(),
        ensures
            final(self).wf(),
            final(self).read_once(*old(self)),
            final(self)@ == old(self)@.set(key.id(), value, final(self).latest()),
    {
        let now = self.now();
        self.set_at(key, value, now);
    }

    /// Whether the response under a key has to be fetched: there is none, or it is older than the
    /// time to live.
    pub fn should_fetch(&self, key: &K, now: Instant) -> (r: bool)
        requires
            self.wf(),
            self@.can_look_back(now@),
        ensures
            r == (!self@.entries.contains_key(key.id()) || elapsed_between(
                self@.entries[key.id()].fetched_at,
                now@,
            ) > self@.ttl),
            r == (!self@.entries.contains_key(key.id()) || now@
                - self@.entries[key.id()].fetched_at > self@.ttl),
    {
        match self.fetched_at.get(key) {
            Some(fetched_at) => now.duration_since(*fetched_at).exceeds(&self.time_to_live),
            None => true,
        }
    }

    /// Drops the responses that are stale at `now`. Whether there was one.
    pub fn evict_at(&mut self, now: Instant) -> (r: bool)
        requires
            old(self).wf(),
        ensures
            final(self).wf(),
            r == old(self)@.any_stale(now@),
            final(self).clock() == old(self).clock(),
            final(self).latest() == old(self).latest(),
            final(self)@ == old(self)@.evicted(now@),
    {
        let keys: Vec<K> = self.fetched_at.keys();
        let mut evicted: bool = false;
        let mut i: usize = 0;
        while i < keys.len()
            invariant
                i <= keys@.len(),
                old(self).wf(),
                self.wf(),
                ids(keys@).no_duplicates(),
                ids(keys@).to_set() == old(self)@.entries.dom(),
                self.clock() == old(self).clock(),
                self.latest() == old(self).latest(),
                self@ == (CacheState { entries: self@.entries, ..old(self)@ }),
                forall|id: K::Id| #[trigger]
                    self@.entries.contains_key(id) <==> old(self)@.entries.contains_key(id) && !(
                    old(self)@.stale(id, now@) && ids(keys@).take(i as int).contains(id)),
                forall|id: K::Id|
                    self@.entries.contains_key(id) ==> #[trigger] self@.entries[id] == old(
                        self,
                    )@.entries[id],
                evicted <==> exists|id: K::Id|
                    ids(keys@).take(i as int).contains(id) && #[trigger] old(self)@.stale(id, now@),
            decreases keys@.len() - i,
        {
            let key = &keys[i];
            let ghost id = key.id();
            let ghost before = *self;
            proof {
                let all = ids(keys@);
                assert(all[i as int] == id);
                assert(all.to_set().contains(id));
                assert(!all.take(i as int).contains(id));
                assert(all.take(i + 1) =~= all.take(i as int).push(id));
                assert forall|other: K::Id| #[trigger]
                    all.take(i + 1).contains(other) <==> all.take(i as int).contains(other) || other
                        == id by {
                    if all.take(i as int).contains(other) {
                        let j = choose|j: int| 0 <= j < i && all.take(i as int)[j] == other;
                        assert(all.take(i + 1)[j] == other);
                    }
                    assert(all.take(i + 1)[i as int] == id);
                }
                assert(self@.entries.contains_key(id));
                assert(self@.entries[id] == old(self)@.entries[id]);
            }
            if let Some(fetched_at) = self.fetched_at.get(key) {
                if now.duration_since(*fetched_at).exceeds(&self.time_to_live) {
                    self.fetched_at.remove(key);
                    self.responses.remove(key);
                    evicted = true;
                    assert(self@.entries =~= before@.entries.remove(id));
                    assert(old(self)@.stale(id, now@));
                } else {
                    assert(!old(self)@.stale(id, now@));
                }
            } else {
                assert(false);
            }
            i += 1;
        }
        proof {
            let all = ids(keys@);
            assert(all.take(i as int) =~= all);
            assert forall|id: K::Id| #[trigger] old(self)@.entries.contains_key(
                id,
            ) implies all.contains(id) by {
                assert(all.to_set().contains(id));
            }
            assert forall|id: K::Id| #[trigger] all.contains(id) implies old(
                self,
            )@.entries.contains_key(id) by {
                assert(all.to_set().contains(id));
            }
            assert(self@ =~= old(self)@.evicted(now@));
        }
        evicted
    }

    /// Drops the responses that are stale by now. Whether there was one.
    pub fn evict(&mut self) -> (r: bool)
        requires
            old(self).wf(),
        ensures
            final(self).wf(),
            final(self).read_once(*old(self)),
            r == old(self)@.any_stale(final(self).latest()),
            final(self)@ == old(self)@.evicted(final(self).latest()),
    {
        let now = self.now();
        self.evict_at(now)
    }

    /// How many requests were answered out of the cache, how many there were, and how many of them
    /// are recent at `now`.
    pub fn stats_at(&self, now: Instant) -> (r: (usize, usize, usize))
        ensures
            r.0 == self@.hits,
            r.1 == self@.requests,
            r.2 == recent(self@.activity, now@).len(),
    {
        let window = Duration::from_secs(ACTIVITY_WINDOW_SECS);
        let ghost activity = self@.activity;
        let mut count: usize = 0;
        let mut i: usize = 0;
        while i < self.activity.len()
            invariant
                activity == points(self.activity@),
                window@ == ACTIVITY_WINDOW_SECS * NANOS_PER_SEC,
                i <= self.activity@.len(),
                count <= i,
                count == recent(activity.take(i as int), now@).len(),
            decreases self.activity@.len() - i,
        {
            let made_at: Instant = self.activity[i];
            proof {
                reveal(Seq::filter);
                assert(activity.take(i + 1).drop_last() =~= activity.take(i as int));
                assert(activity.take(i + 1).last() == made_at@);
            }
            if !now.duration_since(made_at).exceeds(&window) {
                count += 1;
            }
            i += 1;
        }
        assert(activity.take(i as int) =~= activity);
        (self.hits, self.requests, count)
    }

    /// How many requests were answered out of the cache, how many there were, and how many of them
    /// are recent by now.
    pub fn stats(&mut self) -> (r: (usize, usize, usize))
        requires
            old(self).wf(),
        ensures
            final(self).wf(),
            final(self)@ == old(self)@,
            final(self).read_once(*old(self)),
            r.0 == old(self)@.hits,
            r.1 == old(self)@.requests,
            r.2 == recent(old(self)@.activity, final(self).latest()).len(),
    {
        let now = self.now();
        self.stats_at(now)
    }

    /// Counts a request made at `now`.
    fn record(&mut self, now: Instant)
        requires
            old(self).wf(),
        ensures
            final(self).wf(),
            final(self).clock() == old(self).clock(),
            final(self).latest() == old(self).latest(),
            final(self)@ == old(self)@.recorded(now@),
    {
        self.requests = self.requests.wrapping_add(1);
        self.activity.push_back(now);
        assert(self@ =~= old(self)@.recorded(now@));
    }

    /// Drops the oldest request that is kept, if it is outdated when the clock shows `reading`.
    /// Whether it was dropped.
    fn drop_outdated(&mut self, reading: Instant) -> (r: bool)
        requires
            old(self).wf(),
            old(self)@.activity.len() > 0,
        ensures
            final(self).wf(),
            final(self).clock() == old(self).clock(),
            final(self).latest() == old(self).latest(),
            r == outdated(old(self)@.activity[0], reading@),
            final(self)@ == (CacheState {
                activity: if r {
                    old(self)@.activity.skip(1)
                } else {
                    old(self)@.activity
                },
                ..old(self)@
            }),
    {
        let made_at: Instant = self.activity[0];
        let window = Duration::from_secs(ACTIVITY_WINDOW_SECS);
        let is_outdated: bool = reading.duration_since(made_at).exceeds(&window);
        if is_outdated {
            self.activity.pop_front();
        }
        assert(self@.entries =~= old(self)@.entries);
        assert(is_outdated ==> self@.activity =~= old(self)@.activity.skip(1));
        is_outdated
    }
}

/// The points in time that a list holds.
pub open spec fn points(list: Seq<Instant>) -> Seq<int> {
    list.map_values(|point: Instant| point@)
}

/// What a request for a key at `now` comes to.
pub open spec fn answers<K: CacheKey, V: Clone>(
    state: CacheState<K::Id, V>,
    key: K,
    now: int,
    lookup: Lookup<K, V>,
) -> bool {
    match lookup {
        Lookup::Hit(value) => {
            &&& !state.stale(key.id(), now)
            &&& state.entries.contains_key(key.id())
            &&& cloned(state.entries[key.id()].value, value)
        },
        Lookup::Fetch(missing) => state.stale(key.id(), now) && missing == key,
    }
}

/// What to do once the response under a key was fetched, or could not be.
pub open spec fn settles<K: CacheKey, V: Clone, E>(
    key: K,
    fetched: Result<V, E>,
    settled: Settled<K, V, E>,
) -> bool {
    &&& settled.reply == fetched
    &&& match fetched {
        Ok(value) => {
            &&& settled.update matches Some((under, stored))
            &&& under == key
            &&& cloned(value, stored)
        },
        Err(_) => settled.update is None,
    }
}

impl<K: CacheKey, V: Clone> RESTfulCache<K, V> {
    /// Answers a request out of the cache, or says that the response has to be fetched.
    fn answer(&mut self, key: K, should_fetch: bool) -> (r: Lookup<K, V>)
        requires
            old(self).wf(),
            should_fetch || old(self)@.entries.contains_key(key.id()),
        ensures
            final(self).wf(),
            final(self).clock() == old(self).clock(),
            final(self).latest() == old(self).latest(),
            match r {
                Lookup::Hit(value) => {
                    &&& !should_fetch
                    &&& cloned(old(self)@.entries[key.id()].value, value)
                    &&& final(self)@ == (CacheState {
                        hits: next_count(old(self)@.hits),
                        ..old(self)@
                    })
                },
                Lookup::Fetch(missing) => should_fetch && missing == key && final(self)@ == old(
                    self,
                )@,
            },
    {
        if should_fetch {
            return Lookup::Fetch(key);
        }
        self.hits = self.hits.wrapping_add(1);
        let value = self.responses.get(&key).unwrap().clone();
        assert(self@ =~= (CacheState { hits: next_count(old(self)@.hits), ..old(self)@ }));
        Lookup::Hit(value)
    }

    /// Requests a key at `now`. The clock shows the `readings`, one after the other, while the
    /// requests that are no longer recent are dropped, and is not read further.
    pub fn get_at(&mut self, key: K, now: Instant, readings: &Vec<Instant>) -> (r: Lookup<K, V>)
        requires
            old(self).wf(),
            old(self)@.can_look_back(now@),
        ensures
            final(self).wf(),
            final(self).clock() == old(self).clock(),
            final(self).latest() == old(self).latest(),
            final(self)@ == old(self)@.looked_up(key.id(), now@, points(readings@)),
            answers(old(self)@, key, now@, r),
    {
        let should_fetch: bool = self.should_fetch(&key, now);
        self.record(now);
        let ghost recorded = self@;
        let ghost all = points(readings@);
        let mut i: usize = 0;
        while i < readings.len() && self.activity.len() > 0
            invariant
                i <= readings@.len(),
                all == points(readings@),
                self.wf(),
                self.clock() == old(self).clock(),
                self.latest() == old(self).latest(),
                i <= recorded.activity.len(),
                self.activity@.len() == self@.activity.len(),
                self@ == (CacheState { activity: recorded.activity.skip(i as int), ..recorded }),
                forall|j: int|
                    0 <= j < i ==> outdated(#[trigger] recorded.activity[j], all[j]),
            ensures
                i == recorded.activity.len() || i == all.len() || !outdated(
                    recorded.activity[i as int],
                    all[i as int],
                ),
            decreases readings@.len() - i,
        {
            if !self.drop_outdated(readings[i]) {
                break;
            }
            i += 1;
        }
        proof {
            lemma_pruned(recorded.activity, all, i as int);
        }
        self.answer(key, should_fetch)
    }

    /// Requests a key. The clock is read once for the request, and once for each request that is
    /// looked at while those that are no longer recent are dropped.
    pub fn get(&mut self, key: K) -> (r: Lookup<K, V>)
        requires
            old(self).wf(),
            old(self)@.can_look_back(old(self).latest()),
        ensures
            final(self).wf(),
            final(self).clock().started() == old(self).clock().started(),
            final(self).clock().shown() == old(self).clock().shown() + final(self).shown_since(
                *old(self),
            ),
            forall|i: int|
                0 <= i < final(self).shown_since(*old(self)).len() ==> old(self).clock().shows(
                    #[trigger] final(self).shown_since(*old(self))[i],
                ),
            ({
                let points = times(old(self).latest(), final(self).shown_since(*old(self)));
                let kept = final(self)@.activity;
                let dropped = old(self)@.activity.len() + 1 - kept.len();
                // One reading for the request, one for each that was dropped, one for the oldest
                // that is kept.
                &&& dropped >= 0
                &&& points.len() == 1 + dropped + if kept.len() > 0 {
                    1int
                } else {
                    0
                }
                &&& kept.len() > 0 ==> !outdated(kept[0], points.last())
                &&& old(self).latest() <= points[0]
                &&& in_order(points)
                &&& final(self).latest() == points.last()
                &&& final(self)@ == old(self)@.looked_up(key.id(), points[0], points.drop_first())
                &&& answers(old(self)@, key, points[0], r)
            }),
    {
        let ghost from = self.latest();
        let ghost mut taken: Seq<int> = Seq::empty();
        let now = self.now();
        proof {
            let reading = self.clock().shown().last();
            lemma_times_push(from, taken, reading);
            taken = taken.push(reading);
            assert(self.clock().shown() =~= old(self).clock().shown() + taken);
        }
        let should_fetch: bool = self.should_fetch(&key, now);
        self.record(now);
        let ghost recorded = self@;
        let ghost mut n: int = 0;
        while self.activity.len() > 0
            invariant_except_break
                taken.len() == n + 1,
            invariant
                from == old(self).latest(),
                self.wf(),
                self.clock().started() == old(self).clock().started(),
                self.clock().shown() == old(self).clock().shown() + taken,
                forall|j: int|
                    0 <= j < taken.len() ==> old(self).clock().shows(#[trigger] taken[j]),
                self.latest() == furthest(from, taken),
                taken.len() >= n + 1,
                times(from, taken)[0] == now@,
                0 <= n <= recorded.activity.len(),
                self.activity@.len() == self@.activity.len(),
                self@ == (CacheState { activity: recorded.activity.skip(n), ..recorded }),
                forall|j: int|
                    0 <= j < n ==> outdated(
                        #[trigger] recorded.activity[j],
                        times(from, taken)[j + 1],
                    ),
            ensures
                ({
                    ||| n == recorded.activity.len() && taken.len() == n + 1
                    ||| {
                        &&& n < recorded.activity.len()
                        &&& taken.len() == n + 2
                        &&& !outdated(recorded.activity[n], times(from, taken)[n + 1])
                    }
                }),
            decreases recorded.activity.len() - n,
        {
            let reading = self.now();
            proof {
                let shown = self.clock().shown().last();
                lemma_times_push(from, taken, shown);
                let points = times(from, taken);
                taken = taken.push(shown);
                assert(self.clock().shown() =~= old(self).clock().shown() + taken);
                assert forall|j: int| 0 <= j < n implies outdated(
                    #[trigger] recorded.activity[j],
                    times(from, taken)[j + 1],
                ) by {
                    assert(times(from, taken)[j + 1] == points[j + 1]);
                }
            }
            if !self.drop_outdated(reading) {
                break;
            }
            proof {
                n = n + 1;
            }
        }
        let ghost points = times(from, taken);
        proof {
            law_times_never_go_back(from, taken);
            assert forall|i: int| 0 <= i < points.len() implies #[trigger] points[i] == (seq![from]
                + points)[i + 1] by {}
            lemma_pruned(recorded.activity, points.drop_first(), n);
        }
        let r = self.answer(key, should_fetch);
        proof {
            assert(self.shown_since(*old(self)) =~= taken);
            assert(self@ == old(self)@.looked_up(key.id(), points[0], points.drop_first()));
        }
        r
    }

    /// What to do once the response under a key was fetched, or could not be: a response is stored
    /// and answers the request, a failure only answers it.
    pub fn settle<E>(key: K, fetched: Result<V, E>) -> (r: Settled<K, V, E>)
        ensures
            settles(key, fetched, r),
    {
        match fetched {
            Ok(value) => Settled { update: Some((key, value.clone())), reply: Ok(value) },
            Err(error) => Settled { update: None, reply: Err(error) },
        }
    }
}

} // verus!
