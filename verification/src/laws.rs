//! What holds across the operations of a cache.

use crate::key::CacheKey;
use crate::restful_cache::{answers, settles, Lookup, Settled};
use crate::state::{in_order, lemma_pruned, next_count, outdated, pruned, recent, CacheState};
use vstd::prelude::*;

verus! {

/// A response that was stored answers every request for its key until the time to live has passed.
pub proof fn law_stored_response_is_served<K: CacheKey, V: Clone>(
    state: CacheState<K::Id, V>,
    stored_under: K,
    value: V,
    stored_at: int,
    key: K,
    now: int,
    lookup: Lookup<K, V>,
)
    requires
        key.id() == stored_under.id(),
        now - stored_at <= state.ttl,
        answers(state.set(stored_under.id(), value, stored_at), key, now, lookup),
    ensures
        lookup matches Lookup::Hit(served) && cloned(value, served),
{
}

/// Once the time to live has passed, a request for the key has the response fetched anew.
pub proof fn law_expired_response_is_fetched<K: CacheKey, V: Clone>(
    state: CacheState<K::Id, V>,
    stored_under: K,
    value: V,
    stored_at: int,
    key: K,
    now: int,
    lookup: Lookup<K, V>,
)
    requires
        key.id() == stored_under.id(),
        now - stored_at > state.ttl,
        answers(state.set(stored_under.id(), value, stored_at), key, now, lookup),
    ensures
        lookup == Lookup::<K, V>::Fetch(key),
{
}

/// A request for a key without a response has it fetched.
pub proof fn law_missing_response_is_fetched<K: CacheKey, V: Clone>(
    state: CacheState<K::Id, V>,
    key: K,
    now: int,
    lookup: Lookup<K, V>,
)
    requires
        !state.entries.contains_key(key.id()),
        answers(state, key, now, lookup),
    ensures
        state.stale(key.id(), now),
        lookup == Lookup::<K, V>::Fetch(key),
{
}

/// A response that was fetched answers the request it was fetched for. Once it is stored, it answers
/// the requests for its key until the time to live has passed.
pub proof fn law_fetched_response_is_served<K: CacheKey, V: Clone, E>(
    state: CacheState<K::Id, V>,
    requested: K,
    value: V,
    settled: Settled<K, V, E>,
    stored_at: int,
    key: K,
    now: int,
    lookup: Lookup<K, V>,
)
    requires
        settles(requested, Ok(value), settled),
        key.id() == requested.id(),
        now - stored_at <= state.ttl,
        settled.update matches Some((under, stored)) ==> answers(
            state.set(under.id(), stored, stored_at),
            key,
            now,
            lookup,
        ),
    ensures
        settled.reply == Ok::<V, E>(value),
        settled.update matches Some((under, stored)) && under == requested && cloned(
            value,
            stored,
        ) && (lookup matches Lookup::Hit(served) && cloned(stored, served)),
{
}

/// A failed fetch is what the request is answered, and there is nothing to store.
pub proof fn law_failed_fetch_is_answered_and_not_stored<K: CacheKey, V: Clone, E>(
    requested: K,
    error: E,
    settled: Settled<K, V, E>,
)
    requires
        settles(requested, Err(error), settled),
    ensures
        settled.reply == Err::<V, E>(error),
        settled.update is None,
{
}

/// A request comes to a fetch of its own key exactly if the key has no response, or one that was
/// fetched longer ago than the time to live; otherwise it comes to the response under its key.
pub proof fn law_request_fetches_what_is_stale<K: CacheKey, V: Clone>(
    state: CacheState<K::Id, V>,
    key: K,
    now: int,
    lookup: Lookup<K, V>,
)
    requires
        answers(state, key, now, lookup),
    ensures
        lookup is Fetch <==> !state.entries.contains_key(key.id()) || now
            - state.entries[key.id()].fetched_at > state.ttl,
        lookup matches Lookup::Fetch(missing) ==> missing == key,
        lookup matches Lookup::Hit(value) ==> cloned(state.entries[key.id()].value, value),
{
}

/// A key is stale exactly if it has no response, or one that was fetched longer ago than the time to
/// live.
pub proof fn law_stale_is_older_than_the_time_to_live<Id, V>(
    state: CacheState<Id, V>,
    id: Id,
    now: int,
)
    ensures
        state.stale(id, now) <==> !state.entries.contains_key(id) || now
            - state.entries[id].fetched_at > state.ttl,
{
}

/// After a response was stored, its key is stale exactly if more than the time to live has passed.
pub proof fn law_stored_key_goes_stale_after_the_time_to_live<Id, V>(
    state: CacheState<Id, V>,
    id: Id,
    value: V,
    stored_at: int,
    now: int,
)
    ensures
        state.set(id, value, stored_at).stale(id, now) <==> now - stored_at > state.ttl,
{
}

/// A stored response is found under its key, with the time at which it was stored.
pub proof fn law_stored_response_is_found<Id, V>(
    state: CacheState<Id, V>,
    id: Id,
    value: V,
    now: int,
)
    ensures
        ({
            let after = state.set(id, value, now);
            &&& after.entries.contains_key(id)
            &&& after.entries[id].value == value
            &&& after.entries[id].fetched_at == now
        }),
{
}

/// A cache that holds nothing has no response under any key and has counted nothing.
pub proof fn law_empty_holds_nothing<Id, V>(ttl: nat, id: Id)
    ensures
        ({
            let state = CacheState::<Id, V>::empty(ttl);
            &&& !state.entries.contains_key(id)
            &&& state.ttl == ttl
            &&& state.hits == 0
            &&& state.requests == 0
            &&& state.activity.len() == 0
        }),
{
}

/// There is a point twice the time to live ago exactly if that is a span and not too long ago.
pub proof fn law_looking_back<Id, V>(state: CacheState<Id, V>, now: int)
    ensures
        state.can_look_back(now) <==> state.ttl + state.ttl
            <= 18_446_744_073_709_551_615_999_999_999 && now - state.ttl - state.ttl
            >= -9_223_372_036_854_775_808_000_000_000,
{
}

/// What is stale stays stale as time goes by.
pub proof fn law_stale_stays_stale<Id, V>(state: CacheState<Id, V>, id: Id, now: int, later: int)
    requires
        now <= later,
        state.stale(id, now),
    ensures
        state.stale(id, later),
{
}

/// Of two responses stored under one key, the last one counts.
pub proof fn law_last_response_counts<Id, V>(
    state: CacheState<Id, V>,
    id: Id,
    first: V,
    first_at: int,
    last: V,
    last_at: int,
)
    ensures
        state.set(id, first, first_at).set(id, last, last_at) == state.set(id, last, last_at),
{
    assert(state.set(id, first, first_at).set(id, last, last_at) =~= state.set(id, last, last_at));
}

/// Storing a response changes nothing for the other keys.
pub proof fn law_storing_leaves_other_keys<Id, V>(
    state: CacheState<Id, V>,
    id: Id,
    value: V,
    now: int,
    other: Id,
)
    requires
        other != id,
    ensures
        ({
            let after = state.set(id, value, now);
            &&& after.entries.contains_key(other) == state.entries.contains_key(other)
            &&& after.entries.contains_key(other) ==> after.entries[other] == state.entries[other]
            &&& forall|at: int| #[trigger] after.stale(other, at) == state.stale(other, at)
        }),
{
}

/// Responses stored under different keys can be stored in either order.
pub proof fn law_storing_commutes<Id, V>(
    state: CacheState<Id, V>,
    id: Id,
    value: V,
    now: int,
    other: Id,
    other_value: V,
    other_now: int,
)
    requires
        other != id,
    ensures
        state.set(id, value, now).set(other, other_value, other_now) == state.set(
            other,
            other_value,
            other_now,
        ).set(id, value, now),
{
    assert(state.set(id, value, now).set(other, other_value, other_now) =~= state.set(
        other,
        other_value,
        other_now,
    ).set(id, value, now));
}

/// Eviction drops the stale responses and no others.
pub proof fn law_eviction_drops_just_the_stale<Id, V>(state: CacheState<Id, V>, now: int, id: Id)
    ensures
        state.evicted(now).entries.contains_key(id) <==> state.entries.contains_key(id) && now
            - state.entries[id].fetched_at <= state.ttl,
        state.evicted(now).entries.contains_key(id) ==> state.evicted(now).entries[id]
            == state.entries[id],
{
}

/// Something is stale exactly if some response was fetched longer ago than the time to live.
pub proof fn law_any_stale_is_some_old_response<Id, V>(state: CacheState<Id, V>, now: int)
    ensures
        state.any_stale(now) <==> exists|id: Id| #[trigger]
            state.entries.contains_key(id) && now - state.entries[id].fetched_at > state.ttl,
{
    if exists|id: Id| #[trigger]
        state.entries.contains_key(id) && now - state.entries[id].fetched_at > state.ttl {
        let id = choose|id: Id| #[trigger]
            state.entries.contains_key(id) && now - state.entries[id].fetched_at > state.ttl;
        assert(state.stale(id, now));
    }
}

/// Eviction leaves nothing stale: done again at the same moment it finds nothing to drop.
pub proof fn law_eviction_is_thorough<Id, V>(state: CacheState<Id, V>, now: int)
    ensures
        !state.evicted(now).any_stale(now),
        state.evicted(now).evicted(now) == state.evicted(now),
{
    assert(state.evicted(now).evicted(now) =~= state.evicted(now));
}

/// Eviction changes the cache exactly if it finds something to drop.
pub proof fn law_eviction_tells_whether_it_dropped<Id, V>(state: CacheState<Id, V>, now: int)
    ensures
        state.any_stale(now) <==> state.evicted(now) != state,
{
    if state.any_stale(now) {
        let id = choose|id: Id| state.entries.contains_key(id) && #[trigger] state.stale(id, now);
        assert(!state.evicted(now).entries.contains_key(id));
    } else {
        assert(state.evicted(now) =~= state);
    }
}

/// No request tells whether an eviction took place before it.
pub proof fn law_eviction_is_not_noticed<K: CacheKey, V: Clone>(
    state: CacheState<K::Id, V>,
    evicted_at: int,
    key: K,
    now: int,
    lookup: Lookup<K, V>,
)
    requires
        evicted_at <= now,
    ensures
        state.evicted(evicted_at).stale(key.id(), now) == state.stale(key.id(), now),
        answers(state.evicted(evicted_at), key, now, lookup) == answers(state, key, now, lookup),
{
}

/// A request leaves the responses alone; storing and evicting leave the counts alone.
pub proof fn law_counts_and_responses_are_apart<Id, V>(
    state: CacheState<Id, V>,
    id: Id,
    value: V,
    now: int,
    readings: Seq<int>,
)
    ensures
        state.looked_up(id, now, readings).entries == state.entries,
        ({
            let after = state.set(id, value, now);
            &&& after.hits == state.hits
            &&& after.requests == state.requests
            &&& after.activity == state.activity
        }),
        ({
            let after = state.evicted(now);
            &&& after.hits == state.hits
            &&& after.requests == state.requests
            &&& after.activity == state.activity
        }),
{
}

/// No operation changes the time to live.
pub proof fn law_time_to_live_is_fixed<Id, V>(
    state: CacheState<Id, V>,
    id: Id,
    value: V,
    now: int,
    readings: Seq<int>,
)
    ensures
        state.looked_up(id, now, readings).ttl == state.ttl,
        state.set(id, value, now).ttl == state.ttl,
        state.evicted(now).ttl == state.ttl,
{
}

/// Each request counts once, and once more among the hits if its response was fetched no longer ago
/// than the time to live. While the count of requests has not started over, there are never more
/// hits than requests.
pub proof fn law_hits_never_exceed_requests<Id, V>(
    state: CacheState<Id, V>,
    id: Id,
    now: int,
    readings: Seq<int>,
)
    requires
        state.hits <= state.requests,
        state.requests < usize::MAX,
    ensures
        ({
            let after = state.looked_up(id, now, readings);
            let fresh = state.entries.contains_key(id) && now - state.entries[id].fetched_at
                <= state.ttl;
            &&& after.requests == state.requests + 1
            &&& fresh ==> after.hits == state.hits + 1
            &&& !fresh ==> after.hits == state.hits
            &&& after.hits <= after.requests
        }),
{
}

/// A count goes up by one, and starts over after `usize::MAX`.
pub proof fn law_counting(count: nat)
    ensures
        count < usize::MAX ==> next_count(count) == count + 1,
        count == usize::MAX ==> next_count(count) == 0,
{
}

/// A request that was made longer than an hour ago is outdated, and no other is, whatever the time.
pub proof fn law_outdated_after_an_hour(made_at: int, reading: int)
    ensures
        outdated(made_at, reading) <==> reading - made_at > 3_600_000_000_000,
{
}

/// Of no requests none is recent; one more request is one more recent one exactly if it was made no
/// longer than an hour ago, whatever the time.
pub proof fn law_recent_requests_are_counted(activity: Seq<int>, made_at: int, now: int)
    ensures
        recent(Seq::<int>::empty(), now).len() == 0,
        now - made_at <= 3_600_000_000_000 ==> recent(activity.push(made_at), now) == recent(
            activity,
            now,
        ).push(made_at),
        now - made_at > 3_600_000_000_000 ==> recent(activity.push(made_at), now) == recent(
            activity,
            now,
        ),
{
    reveal(Seq::filter);
    assert(activity.push(made_at).drop_last() =~= activity);
}

/// Moving all times by the same span changes neither how many requests are recent nor how many are
/// dropped.
pub proof fn law_activity_depends_on_spans_only(
    activity: Seq<int>,
    readings: Seq<int>,
    now: int,
    shift: int,
)
    ensures
        recent(moved(activity, shift), now + shift).len() == recent(activity, now).len(),
        pruned(moved(activity, shift), moved(readings, shift)) == moved(
            pruned(activity, readings),
            shift,
        ),
    decreases activity.len(),
{
    reveal(Seq::filter);
    if activity.len() > 0 {
        let before = activity.drop_last();
        assert(moved(activity, shift).drop_last() =~= moved(before, shift));
        law_activity_depends_on_spans_only(before, Seq::empty(), now, shift);
        let rest = activity.drop_first();
        let later = readings.drop_first();
        if readings.len() > 0 {
            assert(moved(activity, shift).drop_first() =~= moved(rest, shift));
            assert(moved(readings, shift).drop_first() =~= moved(later, shift));
            law_activity_depends_on_spans_only(rest, later, now, shift);
        }
    }
}

/// Points in time, all moved by the same span.
pub open spec fn moved(points: Seq<int>, shift: int) -> Seq<int> {
    points.map_values(|point: int| point + shift)
}

/// Requests are dropped from the front. Those that are dropped were made longer than an hour before
/// the reading that they were held against. The next one was not, unless there is none or the clock
/// is not read again; and if the requests are in order, neither was any that is kept.
pub proof fn law_recent_requests_are_kept(activity: Seq<int>, readings: Seq<int>) -> (dropped: int)
    ensures
        0 <= dropped <= activity.len(),
        dropped <= readings.len(),
        pruned(activity, readings) == activity.skip(dropped),
        forall|i: int|
            0 <= i < dropped ==> readings[i] - #[trigger] activity[i] > 3_600_000_000_000,
        dropped < activity.len() && dropped < readings.len() ==> readings[dropped]
            - activity[dropped] <= 3_600_000_000_000,
        in_order(activity) && dropped < readings.len() ==> forall|i: int|
            dropped <= i < activity.len() ==> readings[dropped] - #[trigger] activity[i]
                <= 3_600_000_000_000,
    decreases activity.len(),
{
    if activity.len() > 0 && readings.len() > 0 && outdated(activity[0], readings[0]) {
        let rest = activity.drop_first();
        let later = readings.drop_first();
        let n = law_recent_requests_are_kept(rest, later);
        assert(rest.skip(n) =~= activity.skip(n + 1));
        assert forall|i: int| 0 <= i < n + 1 implies readings[i] - #[trigger] activity[i]
            > 3_600_000_000_000 by {
            if i > 0 {
                assert(rest[i - 1] == activity[i] && later[i - 1] == readings[i]);
            }
        }
        if in_order(activity) && n + 1 < readings.len() {
            assert(in_order(rest));
            assert forall|i: int| n + 1 <= i < activity.len() implies readings[n + 1]
                - #[trigger] activity[i] <= 3_600_000_000_000 by {
                assert(rest[i - 1] == activity[i]);
            }
        }
        n + 1
    } else {
        assert(activity.skip(0) =~= activity);
        0
    }
}

/// While the clock shows one and the same time, a request is kept exactly if it is recent.
pub proof fn law_activity_is_the_last_hour(activity: Seq<int>, reading: int)
    requires
        in_order(activity),
    ensures
        pruned(activity, Seq::new(activity.len(), |i: int| reading)) == recent(activity, reading),
    decreases activity.len(),
{
    let is_recent = |made_at: int| !outdated(made_at, reading);
    let readings = Seq::new(activity.len(), |i: int| reading);
    if activity.len() > 0 && outdated(activity[0], reading) {
        let rest = activity.drop_first();
        law_activity_is_the_last_hour(rest, reading);
        assert(readings.drop_first() =~= Seq::new(rest.len(), |i: int| reading));
        assert(activity =~= seq![activity[0]] + rest);
        Seq::filter_distributes_over_add(seq![activity[0]], rest, is_recent);
        reveal_with_fuel(Seq::filter, 2);
        assert(seq![activity[0]].filter(is_recent) =~= Seq::empty());
        assert(Seq::<int>::empty() + rest.filter(is_recent) =~= rest.filter(is_recent));
    } else {
        lemma_pruned(activity, readings, 0);
        assert(activity.skip(0) =~= activity);
        lemma_all_kept(activity, is_recent);
    }
}

proof fn lemma_all_kept(s: Seq<int>, keep: spec_fn(int) -> bool)
    requires
        forall|i: int| 0 <= i < s.len() ==> keep(#[trigger] s[i]),
    ensures
        s.filter(keep) == s,
    decreases s.len(),
{
    reveal(Seq::filter);
    if s.len() > 0 {
        lemma_all_kept(s.drop_last(), keep);
        assert(s.drop_last().push(s.last()) =~= s);
    }
}

/// A request that is made no earlier than the one before it leaves the requests in order.
pub proof fn law_activity_stays_in_order<Id, V>(
    state: CacheState<Id, V>,
    id: Id,
    now: int,
    readings: Seq<int>,
)
    requires
        in_order(state.activity),
        state.activity.len() > 0 ==> state.activity.last() <= now,
    ensures
        in_order(state.looked_up(id, now, readings).activity),
{
    lemma_pruned_in_order(state.recorded(now).activity, readings);
}

proof fn lemma_pruned_in_order(activity: Seq<int>, readings: Seq<int>)
    requires
        in_order(activity),
    ensures
        in_order(pruned(activity, readings)),
    decreases activity.len(),
{
    if activity.len() > 0 && readings.len() > 0 && outdated(activity[0], readings[0]) {
        lemma_pruned_in_order(activity.drop_first(), readings.drop_first());
    }
}

} // verus!
