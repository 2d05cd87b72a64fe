//! What holds after any number of operations on a cache.

use crate::state::{outdated, pruned, recent, CacheState, Entry};
use vstd::prelude::*;

verus! {

/// An operation on a cache.
pub enum Event<Id, V> {
    /// A response was stored.
    Stored { id: Id, value: V, now: int },
    /// The stale responses were dropped.
    Swept { now: int },
    /// A key was requested.
    Requested { id: Id, now: int, readings: Seq<int> },
}

/// What an operation makes of a cache.
pub open spec fn after_event<Id, V>(
    state: CacheState<Id, V>,
    event: Event<Id, V>,
) -> CacheState<Id, V> {
    match event {
        Event::Stored { id, value, now } => state.set(id, value, now),
        Event::Swept { now } => state.evicted(now),
        Event::Requested { id, now, readings } => state.looked_up(id, now, readings),
    }
}

/// What a number of operations make of a new cache.
pub open spec fn after<Id, V>(ttl: nat, events: Seq<Event<Id, V>>) -> CacheState<Id, V>
    decreases events.len(),
{
    if events.len() == 0 {
        CacheState::empty(ttl)
    } else {
        after_event(after(ttl, events.drop_last()), events.last())
    }
}

/// How many of the operations are requests.
pub open spec fn requests_in<Id, V>(events: Seq<Event<Id, V>>) -> nat
    decreases events.len(),
{
    if events.len() == 0 {
        0
    } else {
        requests_in(events.drop_last()) + if events.last() is Requested {
            1nat
        } else {
            0
        }
    }
}

/// Whether an operation stores a response under a key.
pub open spec fn stores<Id, V>(event: Event<Id, V>, id: Id) -> bool {
    event matches Event::Stored { id: under, value: _, now: _ } && under == id
}

/// How many of the requests found a fresh response.
pub open spec fn fresh_requests_in<Id, V>(ttl: nat, events: Seq<Event<Id, V>>) -> nat
    decreases events.len(),
{
    if events.len() == 0 {
        0
    } else {
        let earlier = events.drop_last();
        let found_fresh = events.last() matches Event::Requested { id, now, readings: _ }
            && !after(ttl, earlier).stale(id, now);
        fresh_requests_in(ttl, earlier) + if found_fresh {
            1nat
        } else {
            0
        }
    }
}

/// When the requests were made.
pub open spec fn request_times<Id, V>(events: Seq<Event<Id, V>>) -> Seq<int>
    decreases events.len(),
{
    if events.len() == 0 {
        Seq::empty()
    } else {
        match events.last() {
            Event::Requested { id: _, now, readings: _ } => request_times(
                events.drop_last(),
            ).push(now),
            _ => request_times(events.drop_last()),
        }
    }
}

/// The clock had not passed `now` when it was read for an operation.
pub open spec fn read_by<Id, V>(event: Event<Id, V>, now: int) -> bool {
    event matches Event::Requested { id: _, now: _, readings } ==> forall|k: int|
        0 <= k < readings.len() ==> #[trigger] readings[k] <= now
}

/// Every request is counted, and counted as a hit exactly if it found a fresh response. (The counts
/// start over once they have reached `usize::MAX`.)
pub proof fn law_every_request_is_counted<Id, V>(ttl: nat, events: Seq<Event<Id, V>>)
    requires
        requests_in(events) <= usize::MAX,
    ensures
        ({
            let state = after(ttl, events);
            &&& state.ttl == ttl
            &&& state.requests == requests_in(events)
            &&& state.hits == fresh_requests_in(ttl, events)
            &&& state.hits <= state.requests
        }),
    decreases events.len(),
{
    if events.len() > 0 {
        law_every_request_is_counted(ttl, events.drop_last());
    }
}

/// At any time that the clock has not passed yet, the recent requests among those that are kept are
/// all the requests of the last hour.
pub proof fn law_recent_requests_are_those_of_the_last_hour<Id, V>(
    ttl: nat,
    events: Seq<Event<Id, V>>,
    now: int,
)
    requires
        forall|i: int| 0 <= i < events.len() ==> read_by(#[trigger] events[i], now),
    ensures
        recent(after(ttl, events).activity, now) == recent(request_times(events), now),
    decreases events.len(),
{
    if events.len() > 0 {
        let earlier = events.drop_last();
        assert forall|i: int| 0 <= i < earlier.len() implies read_by(
            #[trigger] earlier[i],
            now,
        ) by {
            assert(earlier[i] == events[i]);
        }
        law_recent_requests_are_those_of_the_last_hour(ttl, earlier, now);
        assert(read_by(events[events.len() - 1], now));
        if let Event::Requested { id, now: made_at, readings } = events.last() {
            let kept = after(ttl, earlier).activity;
            lemma_pruning_drops_nothing_recent(kept.push(made_at), readings, now);
            lemma_recent_push(kept, made_at, now);
            lemma_recent_push(request_times(earlier), made_at, now);
        }
    }
}

/// Once a response was stored, its key is stale exactly when the time to live has passed, whatever
/// requests, sweeps and stores under other keys come after it.
pub proof fn law_key_is_stale_once_its_time_has_passed<Id, V>(
    ttl: nat,
    events: Seq<Event<Id, V>>,
    id: Id,
    value: V,
    stored_at: int,
    at: int,
    now: int,
)
    requires
        0 <= at < events.len(),
        events[at] == (Event::Stored { id, value, now: stored_at }),
        forall|later: int| at < later < events.len() ==> !stores(#[trigger] events[later], id),
        forall|later: int|
            at < later < events.len() ==> (#[trigger] events[later] matches Event::Swept {
                now: swept_at,
            } ==> swept_at <= now),
    ensures
        after(ttl, events).stale(id, now) <==> now - stored_at > ttl,
        after(ttl, events).entries.contains_key(id) ==> after(ttl, events).entries[id] == (Entry {
            value,
            fetched_at: stored_at,
        }),
    decreases events.len(),
{
    lemma_ttl(ttl, events);
    if at < events.len() - 1 {
        let earlier = events.drop_last();
        assert(earlier[at] == events[at]);
        assert forall|later: int| at < later < earlier.len() implies !stores(
            #[trigger] earlier[later],
            id,
        ) by {
            assert(earlier[later] == events[later]);
        }
        assert forall|later: int| at < later < earlier.len() implies (
        #[trigger] earlier[later] matches Event::Swept { now: swept_at } ==> swept_at <= now) by {
            assert(earlier[later] == events[later]);
        }
        law_key_is_stale_once_its_time_has_passed(ttl, earlier, id, value, stored_at, at, now);
        lemma_ttl(ttl, earlier);
        let last = events[events.len() - 1];
        assert(!stores(last, id));
    }
}

/// A response in the cache is the last one that was stored under its key, with the time at which it
/// was stored.
pub proof fn law_response_is_the_last_stored<Id, V>(
    ttl: nat,
    events: Seq<Event<Id, V>>,
    id: Id,
) -> (at: int)
    requires
        after(ttl, events).entries.contains_key(id),
    ensures
        0 <= at < events.len(),
        events[at] matches Event::Stored { id: under, value, now } && under == id && after(
            ttl,
            events,
        ).entries[id] == (Entry { value, fetched_at: now }),
        forall|later: int| at < later < events.len() ==> !stores(#[trigger] events[later], id),
    decreases events.len(),
{
    let n = events.len() - 1;
    if stores(events.last(), id) {
        n
    } else {
        let at = law_response_is_the_last_stored(ttl, events.drop_last(), id);
        assert(events.drop_last()[at] == events[at]);
        assert forall|later: int| at < later < events.len() implies !stores(
            #[trigger] events[later],
            id,
        ) by {
            if later < n {
                assert(events.drop_last()[later] == events[later]);
            }
        }
        at
    }
}

/// Until a sweep drops stale responses, every response that was stored under a key is kept or
/// replaced by a later one.
pub proof fn law_stored_key_stays_until_a_sweep<Id, V>(
    ttl: nat,
    events: Seq<Event<Id, V>>,
    id: Id,
    at: int,
)
    requires
        0 <= at < events.len(),
        stores(events[at], id),
        forall|later: int| at < later < events.len() ==> !(#[trigger] events[later] is Swept),
    ensures
        after(ttl, events).entries.contains_key(id),
    decreases events.len(),
{
    if at < events.len() - 1 {
        let before = events.drop_last();
        assert(before[at] == events[at]);
        assert forall|later: int| at < later < before.len() implies !(
        #[trigger] before[later] is Swept) by {
            assert(before[later] == events[later]);
        }
        law_stored_key_stays_until_a_sweep(ttl, before, id, at);
        assert(!(events[events.len() - 1] is Swept));
    }
}

proof fn lemma_ttl<Id, V>(ttl: nat, events: Seq<Event<Id, V>>)
    ensures
        after(ttl, events).ttl == ttl,
    decreases events.len(),
{
    if events.len() > 0 {
        lemma_ttl(ttl, events.drop_last());
    }
}

proof fn lemma_recent_push(activity: Seq<int>, made_at: int, now: int)
    ensures
        recent(activity.push(made_at), now) == if outdated(made_at, now) {
            recent(activity, now)
        } else {
            recent(activity, now).push(made_at)
        },
{
    reveal(Seq::filter);
    assert(activity.push(made_at).drop_last() =~= activity);
}

/// What is dropped as outdated is outdated at any later time too.
proof fn lemma_pruning_drops_nothing_recent(activity: Seq<int>, readings: Seq<int>, now: int)
    requires
        forall|k: int| 0 <= k < readings.len() ==> #[trigger] readings[k] <= now,
    ensures
        recent(pruned(activity, readings), now) == recent(activity, now),
    decreases activity.len(),
{
    if activity.len() > 0 && readings.len() > 0 && outdated(activity[0], readings[0]) {
        let rest = activity.drop_first();
        let front = seq![activity[0]];
        let is_recent = |made_at: int| !outdated(made_at, now);
        let later = readings.drop_first();
        assert forall|k: int| 0 <= k < later.len() implies #[trigger] later[k] <= now by {
            assert(later[k] == readings[k + 1]);
        }
        lemma_pruning_drops_nothing_recent(rest, later, now);
        assert(activity =~= front + rest);
        Seq::filter_distributes_over_add(front, rest, is_recent);
        reveal_with_fuel(Seq::filter, 2);
        assert(front.filter(is_recent) =~= Seq::empty());
        assert(Seq::<int>::empty() + rest.filter(is_recent) =~= rest.filter(is_recent));
    }
}

} // verus!
