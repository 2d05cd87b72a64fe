//! What the calls on a cache come to, in numbers, and how they relate.

use crate::clock::{
    law_clock_shows_the_time_that_has_passed, law_clock_start_is_a_system_moment,
    law_later_of_is_the_maximum, law_times_are_the_running_maximum, system_elapsed, system_now,
    times,
};
use crate::key::CacheKey;
use crate::key_map::KeyMap;
use crate::laws::law_recent_requests_are_kept;
use crate::restful_cache::{points, Lookup, RESTfulCache, Settled};
use crate::state::{outdated, recent};
use crate::time::{Duration, Instant};
use vstd::prelude::*;

verus! {

/// A new cache has the time to live it was made with, no response, and nothing counted.
pub proof fn law_new_cache_is_empty<K: CacheKey, V>(
    ttl: Duration,
    cache: RESTfulCache<K, V>,
    id: K::Id,
)
    requires
        call_ensures(RESTfulCache::<K, V>::new, (ttl,), cache),
    ensures
        cache@.ttl == ttl@,
        !cache@.entries.contains_key(id),
        cache@.hits == 0,
        cache@.requests == 0,
        cache@.activity.len() == 0,
        cache.clock().shown().len() == 0,
        cache.latest() == 0,
{
}

/// The clock of a new cache starts at a moment that the system clock gave.
pub(crate) proof fn law_new_cache_starts_its_clock<K: CacheKey, V>(
    ttl: Duration,
    cache: RESTfulCache<K, V>,
)
    requires
        call_ensures(RESTfulCache::<K, V>::new, (ttl,), cache),
    ensures
        call_ensures(system_now, (), cache.clock().started()),
{
    law_clock_start_is_a_system_moment(cache.clock());
}

/// A response has to be fetched exactly if there is none, or it was fetched longer ago than the time
/// to live.
pub proof fn law_should_fetch_what_is_missing_or_old<K: CacheKey, V>(
    cache: RESTfulCache<K, V>,
    key: K,
    now: Instant,
    r: bool,
)
    requires
        call_ensures(RESTfulCache::<K, V>::should_fetch, (&cache, &key, now), r),
    ensures
        r <==> !cache@.entries.contains_key(key.id()) || now@
            - cache@.entries[key.id()].fetched_at > cache@.ttl,
{
}

/// Right after a response was stored at one time, it has to be fetched at another exactly if the
/// time to live lies between them; what holds of the other keys does not change.
pub proof fn law_should_fetch_after_storing<K: CacheKey, V>(
    cache: &mut RESTfulCache<K, V>,
    key: K,
    value: V,
    stored_at: Instant,
    asked: K,
    now: Instant,
    before: bool,
    after: bool,
)
    requires
        call_ensures(RESTfulCache::<K, V>::should_fetch, (&*cache, &asked, now), before),
        call_ensures(RESTfulCache::<K, V>::set_at, (cache, key, value, stored_at), ()),
        call_ensures(RESTfulCache::<K, V>::should_fetch, (&*final(cache), &asked, now), after),
    ensures
        asked.id() == key.id() ==> (after <==> now@ - stored_at@ > old(cache)@.ttl),
        asked.id() != key.id() ==> after == before,
{
}

/// Storing a response puts it under its key with its time, and changes nothing else.
pub proof fn law_set_at_stores_the_response<K: CacheKey, V>(
    cache: &mut RESTfulCache<K, V>,
    key: K,
    value: V,
    now: Instant,
    other: K::Id,
)
    requires
        call_ensures(RESTfulCache::<K, V>::set_at, (cache, key, value, now), ()),
    ensures
        final(cache)@.entries.contains_key(key.id()),
        final(cache)@.entries[key.id()].value == value,
        final(cache)@.entries[key.id()].fetched_at == now@,
        other != key.id() ==> final(cache)@.entries.contains_key(other) == old(cache)@.entries.contains_key(other),
        other != key.id() ==> final(cache)@.entries[other] == old(cache)@.entries[other],
        final(cache)@.ttl == old(cache)@.ttl,
        final(cache)@.hits == old(cache)@.hits,
        final(cache)@.requests == old(cache)@.requests,
        final(cache)@.activity == old(cache)@.activity,
        final(cache).clock() == old(cache).clock(),
        final(cache).latest() == old(cache).latest(),
{
}

/// Eviction keeps a response exactly if it was fetched no longer ago than the time to live, tells
/// whether it dropped one, and changes nothing else.
pub proof fn law_evict_at_drops_what_is_old<K: CacheKey, V>(
    cache: &mut RESTfulCache<K, V>,
    now: Instant,
    r: bool,
    id: K::Id,
)
    requires
        call_ensures(RESTfulCache::<K, V>::evict_at, (cache, now), r),
    ensures
        final(cache)@.entries.contains_key(id) <==> old(cache)@.entries.contains_key(id) && now@
            - old(cache)@.entries[id].fetched_at <= old(cache)@.ttl,
        final(cache)@.entries.contains_key(id) ==> final(cache)@.entries[id] == old(cache)@.entries[id],
        old(cache)@.entries.contains_key(id) && now@ - old(cache)@.entries[id].fetched_at > old(cache)@.ttl ==> r,
        r ==> exists|gone: K::Id| #[trigger]
            old(cache)@.entries.contains_key(gone) && now@ - old(cache)@.entries[gone].fetched_at
                > old(cache)@.ttl,
        final(cache)@.ttl == old(cache)@.ttl,
        final(cache)@.hits == old(cache)@.hits,
        final(cache)@.requests == old(cache)@.requests,
        final(cache)@.activity == old(cache)@.activity,
        final(cache).clock() == old(cache).clock(),
        final(cache).latest() == old(cache).latest(),
{
    if r {
        let gone = choose|gone: K::Id|
            old(cache)@.entries.contains_key(gone) && #[trigger] old(cache)@.stale(gone, now@);
        assert(old(cache)@.entries.contains_key(gone));
    }
    if old(cache)@.entries.contains_key(id) && now@ - old(cache)@.entries[id].fetched_at > old(cache)@.ttl {
        assert(old(cache)@.stale(id, now@));
    }
}

/// The statistics are the hits, the requests, and how many of the requests that are kept were made
/// no longer than an hour ago.
pub proof fn law_stats_at_counts_the_last_hour<K: CacheKey, V>(
    cache: RESTfulCache<K, V>,
    now: Instant,
    r: (usize, usize, usize),
)
    requires
        call_ensures(RESTfulCache::<K, V>::stats_at, (&cache, now), r),
    ensures
        r.0 == cache@.hits,
        r.1 == cache@.requests,
        r.2 == cache@.activity.filter(
            |made_at: int| now@ - made_at <= 3_600_000_000_000,
        ).len(),
{
    lemma_recent_is_within_the_hour(cache@.activity, now@);
}

proof fn lemma_recent_is_within_the_hour(activity: Seq<int>, now: int)
    ensures
        recent(activity, now) == activity.filter(|made_at: int| now - made_at <= 3_600_000_000_000),
    decreases activity.len(),
{
    reveal(Seq::filter);
    if activity.len() > 0 {
        lemma_recent_is_within_the_hour(activity.drop_last(), now);
    }
}

/// The points that a list holds are those of its items, in order.
pub proof fn law_points_are_those_of_the_items(list: Seq<Instant>, i: int)
    requires
        0 <= i < list.len(),
    ensures
        points(list).len() == list.len(),
        points(list)[i] == list[i]@,
{
}

/// A request comes to a fetch of its key exactly if there is no response or an old one, and
/// otherwise to the response. It counts once, and as a hit if it was answered. The responses stay.
/// Of the requests that are kept, those at the front are dropped that were made longer than an hour
/// before the reading each is held against.
pub proof fn law_get_at_answers_or_fetches<K: CacheKey, V: Clone>(
    cache: &mut RESTfulCache<K, V>,
    key: K,
    now: Instant,
    readings: Vec<Instant>,
    r: Lookup<K, V>,
) -> (dropped: int)
    requires
        call_ensures(RESTfulCache::<K, V>::get_at, (cache, key, now, &readings), r),
        old(cache)@.requests <= usize::MAX,
        old(cache)@.hits <= usize::MAX,
    ensures
        r is Fetch <==> !old(cache)@.entries.contains_key(key.id()) || now@ - old(cache)@.entries[key.id()].fetched_at > old(cache)@.ttl,
        r matches Lookup::Fetch(missing) ==> missing == key,
        r matches Lookup::Hit(value) ==> cloned(old(cache)@.entries[key.id()].value, value),
        old(cache)@.requests < usize::MAX ==> final(cache)@.requests == old(cache)@.requests + 1,
        old(cache)@.requests == usize::MAX ==> final(cache)@.requests == 0,
        r is Fetch ==> final(cache)@.hits == old(cache)@.hits,
        r is Hit && old(cache)@.hits < usize::MAX ==> final(cache)@.hits == old(cache)@.hits + 1,
        r is Hit && old(cache)@.hits == usize::MAX ==> final(cache)@.hits == 0,
        final(cache)@.ttl == old(cache)@.ttl,
        final(cache)@.entries == old(cache)@.entries,
        final(cache).clock() == old(cache).clock(),
        final(cache).latest() == old(cache).latest(),
        0 <= dropped <= old(cache)@.activity.len() + 1,
        dropped <= readings@.len(),
        final(cache)@.activity == old(cache)@.activity.push(now@).skip(dropped),
        forall|i: int|
            0 <= i < dropped ==> readings@[i]@ - #[trigger] old(cache)@.activity.push(now@)[i]
                > 3_600_000_000_000,
        dropped <= old(cache)@.activity.len() && dropped < readings@.len()
            ==> readings@[dropped]@ - old(cache)@.activity.push(now@)[dropped]
            <= 3_600_000_000_000,
{
    law_recent_requests_are_kept(old(cache)@.activity.push(now@), points(readings@))
}

/// A response that was stored under one string answers the requests for the string with the same
/// characters until the time to live has passed, and for no other.
pub proof fn law_each_string_gets_its_own_response<V: Clone>(
    cache: &mut RESTfulCache<String, V>,
    stored_under: String,
    value: V,
    stored_at: Instant,
    stored: &mut RESTfulCache<String, V>,
    key: String,
    now: Instant,
    readings: Vec<Instant>,
    r: Lookup<String, V>,
)
    requires
        call_ensures(
            RESTfulCache::<String, V>::set_at,
            (cache, stored_under, value, stored_at),
            (),
        ),
        *stored == *final(cache),
        call_ensures(RESTfulCache::<String, V>::get_at, (stored, key, now, &readings), r),
    ensures
        key@ == stored_under@ && now@ - stored_at@ <= old(cache)@.ttl ==> (
        r matches Lookup::Hit(served) && cloned(value, served)),
        key@ == stored_under@ && now@ - stored_at@ > old(cache)@.ttl ==> r == Lookup::<
            String,
            V,
        >::Fetch(key),
        key@ != stored_under@ && !old(cache)@.entries.contains_key(key.id()) ==> r == Lookup::<
            String,
            V,
        >::Fetch(key),
        key@ != stored_under@ && r is Hit ==> old(cache)@.entries.contains_key(key.id()) && cloned(
            old(cache)@.entries[key.id()].value,
            r->Hit_0,
        ),
{
}

/// Of two requests for one key, made one right after the other, the second is answered like the
/// first unless the time to live passes between them.
pub proof fn law_requests_agree_while_fresh<K: CacheKey, V: Clone>(
    cache: &mut RESTfulCache<K, V>,
    key: K,
    first_at: Instant,
    first_readings: Vec<Instant>,
    first: Lookup<K, V>,
    again: &mut RESTfulCache<K, V>,
    second_at: Instant,
    second_readings: Vec<Instant>,
    second: Lookup<K, V>,
)
    requires
        call_ensures(
            RESTfulCache::<K, V>::get_at,
            (cache, key, first_at, &first_readings),
            first,
        ),
        *again == *final(cache),
        call_ensures(
            RESTfulCache::<K, V>::get_at,
            (again, key, second_at, &second_readings),
            second,
        ),
        first_at@ <= second_at@,
    ensures
        first is Fetch ==> second is Fetch,
        first is Hit && second is Fetch ==> second_at@ - old(cache)@.entries[key.id()].fetched_at > old(cache)@.ttl,
{
}

/// A fetched response answers the request and is stored under the key it was fetched for; a failure
/// answers the request and leaves nothing to store.
pub proof fn law_settle_passes_on_what_was_fetched<K: CacheKey, V: Clone, E>(
    key: K,
    fetched: Result<V, E>,
    r: Settled<K, V, E>,
)
    requires
        call_ensures(RESTfulCache::<K, V>::settle::<E>, (key, fetched), r),
    ensures
        r.reply == fetched,
        r.update is Some <==> fetched is Ok,
        r.update matches Some((under, stored)) ==> under == key && cloned(fetched->Ok_0, stored),
{
}

/// The maps that a cache gives out hold its responses and the times at which they were fetched.
pub proof fn law_maps_hold_the_entries<K: CacheKey, V>(
    cache: RESTfulCache<K, V>,
    responses: &KeyMap<K, V>,
    fetched_at: &KeyMap<K, Instant>,
    key: K,
    response: Option<&V>,
    time: Option<&Instant>,
)
    requires
        call_ensures(RESTfulCache::<K, V>::responses, (&cache,), responses),
        call_ensures(RESTfulCache::<K, V>::fetched_at, (&cache,), fetched_at),
        call_ensures(KeyMap::<K, V>::get, (responses, &key), response),
        call_ensures(KeyMap::<K, Instant>::get, (fetched_at, &key), time),
    ensures
        response is Some <==> cache@.entries.contains_key(key.id()),
        time is Some <==> cache@.entries.contains_key(key.id()),
        response matches Some(value) ==> *value == cache@.entries[key.id()].value,
        time matches Some(at) ==> at@ == cache@.entries[key.id()].fetched_at,
{
    let times = fetched_at@.map_values(|at: Instant| at@);
    assert(times.contains_key(key.id()) <==> fetched_at@.contains_key(key.id()));
    if fetched_at@.contains_key(key.id()) {
        assert(times[key.id()] == fetched_at@[key.id()]@);
    }
}

/// A cache can look back exactly if twice its time to live is a span that reaches back to a point.
pub proof fn law_can_look_back_twice_the_time_to_live<K: CacheKey, V>(
    cache: RESTfulCache<K, V>,
    now: Instant,
    r: bool,
)
    requires
        call_ensures(RESTfulCache::<K, V>::can_look_back, (&cache, now), r),
    ensures
        r <==> cache@.ttl + cache@.ttl <= 18_446_744_073_709_551_615_999_999_999 && now@
            - cache@.ttl - cache@.ttl >= -9_223_372_036_854_775_808_000_000_000,
{
}

/// Where the clock of a cache stands after one reading: at the time that the system clock says has
/// passed since it was started, unless an operation went by a later point before.
pub(crate) proof fn law_one_reading_gives_the_time<K: CacheKey, V>(
    before: RESTfulCache<K, V>,
    after: RESTfulCache<K, V>,
)
    requires
        after.read_once(before),
    ensures
        after.clock().started() == before.clock().started(),
        after.latest() >= before.latest(),
        exists|nanos: u128|
            {
                &&& #[trigger] call_ensures(
                    system_elapsed,
                    (&before.clock().started(),),
                    nanos,
                )
                &&& nanos <= 9_223_372_036_854_775_807_999_999_999 ==> after.latest() >= nanos
                &&& before.latest() <= nanos <= 9_223_372_036_854_775_807_999_999_999
                    ==> after.latest() == nanos
                &&& nanos < before.latest() ==> after.latest() == before.latest()
            },
        after.clock().shown().len() == before.clock().shown().len() + 1,
{
    let reading = after.clock().shown().last();
    law_clock_shows_the_time_that_has_passed(before.clock(), reading);
    law_later_of_is_the_maximum(before.latest(), reading);
    let nanos = choose|nanos: u128|
        {
            &&& #[trigger] call_ensures(system_elapsed, (&before.clock().started(),), nanos)
            &&& nanos <= 9_223_372_036_854_775_807_999_999_999 ==> reading == nanos
            &&& nanos > 9_223_372_036_854_775_807_999_999_999 ==> reading
                == 9_223_372_036_854_775_807_999_999_999
        };
    assert(call_ensures(system_elapsed, (&before.clock().started(),), nanos));
}

/// Asking for the time reads the clock once, gives where it then stands, and changes nothing else.
pub proof fn law_now_reads_the_clock<K: CacheKey, V>(cache: &mut RESTfulCache<K, V>, r: Instant)
    requires
        call_ensures(RESTfulCache::<K, V>::now, (cache,), r),
    ensures
        final(cache).read_once(*old(cache)),
        r@ == final(cache).latest(),
        final(cache)@ == old(cache)@,
{
}

/// Storing a response by the clock reads it once and stores the response with the time at which the
/// clock then stands.
pub proof fn law_set_goes_by_the_clock<K: CacheKey, V>(
    cache: &mut RESTfulCache<K, V>,
    key: K,
    value: V,
    other: K::Id,
)
    requires
        call_ensures(RESTfulCache::<K, V>::set, (cache, key, value), ()),
    ensures
        final(cache).read_once(*old(cache)),
        final(cache)@.entries.contains_key(key.id()),
        final(cache)@.entries[key.id()].value == value,
        final(cache)@.entries[key.id()].fetched_at == final(cache).latest(),
        other != key.id() ==> final(cache)@.entries.contains_key(other) == old(cache)@.entries.contains_key(other),
        other != key.id() ==> final(cache)@.entries[other] == old(cache)@.entries[other],
        final(cache)@.ttl == old(cache)@.ttl,
        final(cache)@.hits == old(cache)@.hits,
        final(cache)@.requests == old(cache)@.requests,
        final(cache)@.activity == old(cache)@.activity,
{
}

/// Evicting by the clock reads it once and drops what is older than the time to live when the clock
/// stands there.
pub proof fn law_evict_goes_by_the_clock<K: CacheKey, V>(
    cache: &mut RESTfulCache<K, V>,
    r: bool,
    id: K::Id,
)
    requires
        call_ensures(RESTfulCache::<K, V>::evict, (cache,), r),
    ensures
        final(cache).read_once(*old(cache)),
        final(cache)@.entries.contains_key(id) <==> old(cache)@.entries.contains_key(id) && final(cache).latest() - old(cache)@.entries[id].fetched_at <= old(cache)@.ttl,
        final(cache)@.entries.contains_key(id) ==> final(cache)@.entries[id] == old(cache)@.entries[id],
        old(cache)@.entries.contains_key(id) && final(cache).latest() - old(cache)@.entries[id].fetched_at > old(cache)@.ttl ==> r,
        r ==> exists|gone: K::Id| #[trigger]
            old(cache)@.entries.contains_key(gone) && final(cache).latest() - old(cache)@.entries[gone].fetched_at > old(cache)@.ttl,
        final(cache)@.ttl == old(cache)@.ttl,
        final(cache)@.hits == old(cache)@.hits,
        final(cache)@.requests == old(cache)@.requests,
        final(cache)@.activity == old(cache)@.activity,
{
    let now = final(cache).latest();
    if r {
        let gone = choose|gone: K::Id|
            old(cache)@.entries.contains_key(gone) && #[trigger] old(cache)@.stale(gone, now);
        assert(old(cache)@.entries.contains_key(gone));
    }
    if old(cache)@.entries.contains_key(id) && now - old(cache)@.entries[id].fetched_at > old(cache)@.ttl {
        assert(old(cache)@.stale(id, now));
    }
}

/// A response that was stored by the clock is dropped by an eviction exactly if the clock has moved
/// on by more than the time to live since.
pub proof fn law_evict_after_set<K: CacheKey, V>(
    cache: &mut RESTfulCache<K, V>,
    key: K,
    value: V,
    stored: &mut RESTfulCache<K, V>,
    r: bool,
)
    requires
        call_ensures(RESTfulCache::<K, V>::set, (cache, key, value), ()),
        *stored == *final(cache),
        call_ensures(RESTfulCache::<K, V>::evict, (stored,), r),
    ensures
        final(stored)@.entries.contains_key(key.id()) <==> final(stored).latest() - final(cache).latest() <= old(cache)@.ttl,
        final(stored).latest() - final(cache).latest() > old(cache)@.ttl ==> r,
{
    law_evict_goes_by_the_clock(stored, r, key.id());
}

/// The statistics by the clock are the hits, the requests, and how many of the requests that are
/// kept were made no longer than an hour before the clock stands.
pub proof fn law_stats_go_by_the_clock<K: CacheKey, V>(
    cache: &mut RESTfulCache<K, V>,
    r: (usize, usize, usize),
)
    requires
        call_ensures(RESTfulCache::<K, V>::stats, (cache,), r),
    ensures
        final(cache).read_once(*old(cache)),
        final(cache)@ == old(cache)@,
        r.0 == old(cache)@.hits,
        r.1 == old(cache)@.requests,
        r.2 == old(cache)@.activity.filter(
            |made_at: int| final(cache).latest() - made_at <= 3_600_000_000_000,
        ).len(),
{
    lemma_recent_is_within_the_hour(old(cache)@.activity, final(cache).latest());
}

/// A request by the clock reads it for the request, for each request that is dropped, and for the
/// oldest that is kept. It is answered by where the clock stands first: out of the cache if the
/// response was fetched no longer ago than the time to live, and by a fetch otherwise. Dropped are
/// requests that were made longer than an hour ago, up to one that was not.
pub proof fn law_get_goes_by_the_clock<K: CacheKey, V: Clone>(
    cache: &mut RESTfulCache<K, V>,
    key: K,
    r: Lookup<K, V>,
    by: Seq<int>,
)
    requires
        call_ensures(RESTfulCache::<K, V>::get, (cache, key), r),
        by == times(
            old(cache).latest(),
            final(cache).clock().shown().skip(old(cache).clock().shown().len() as int),
        ),
        old(cache)@.requests <= usize::MAX,
        old(cache)@.hits <= usize::MAX,
    ensures
        final(cache).clock().started() == old(cache).clock().started(),
        final(cache).clock().shown().len() == old(cache).clock().shown().len() + by.len(),
        forall|i: int|
            0 <= i < old(cache).clock().shown().len() ==> #[trigger] final(cache).clock().shown()[i] == old(cache).clock().shown()[i],
        forall|i: int|
            old(cache).clock().shown().len() <= i < final(cache).clock().shown().len() ==> old(cache).clock().shows(#[trigger] final(cache).clock().shown()[i]),
        by.len() >= 2,
        final(cache).latest() == by.last(),
        r is Fetch <==> !old(cache)@.entries.contains_key(key.id()) || by[0] - old(cache)@.entries[key.id()].fetched_at > old(cache)@.ttl,
        r matches Lookup::Fetch(missing) ==> missing == key,
        r matches Lookup::Hit(value) ==> cloned(old(cache)@.entries[key.id()].value, value),
        old(cache)@.requests < usize::MAX ==> final(cache)@.requests == old(cache)@.requests + 1,
        old(cache)@.requests == usize::MAX ==> final(cache)@.requests == 0,
        r is Fetch ==> final(cache)@.hits == old(cache)@.hits,
        r is Hit && old(cache)@.hits < usize::MAX ==> final(cache)@.hits == old(cache)@.hits + 1,
        r is Hit && old(cache)@.hits == usize::MAX ==> final(cache)@.hits == 0,
        final(cache)@.ttl == old(cache)@.ttl,
        final(cache)@.entries == old(cache)@.entries,
        final(cache)@.activity.len() <= old(cache)@.activity.len() + 1,
        ({
            let made = old(cache)@.activity.push(by[0]);
            let dropped = made.len() - final(cache)@.activity.len();
            &&& final(cache)@.activity == made.skip(dropped)
            &&& forall|i: int|
                0 <= i < dropped ==> by[i + 1] - #[trigger] made[i] > 3_600_000_000_000
            &&& dropped < made.len() ==> by.len() == dropped + 2 && final(cache).latest()
                - made[dropped] <= 3_600_000_000_000
            &&& dropped == made.len() ==> by.len() == dropped + 1
        }),
{
    let taken = final(cache).shown_since(*old(cache));
    let made = old(cache)@.activity.push(by[0]);
    let readings = by.drop_first();
    let dropped = law_recent_requests_are_kept(made, readings);
    assert(dropped == made.len() - final(cache)@.activity.len());
    assert forall|i: int| 0 <= i < dropped implies by[i + 1] - #[trigger] made[i]
        > 3_600_000_000_000 by {
        assert(readings[i] == by[i + 1]);
    }
    if final(cache)@.activity.len() > 0 {
        assert(final(cache)@.activity[0] == made[dropped]);
        assert(!outdated(made[dropped], by.last()));
    }
    assert forall|i: int|
        old(cache).clock().shown().len() <= i < final(cache).clock().shown().len() implies old(cache).clock().shows(#[trigger] final(cache).clock().shown()[i]) by {
        assert(taken[i - old(cache).clock().shown().len()] == final(cache).clock().shown()[i]);
    }
}

/// A response that was stored by the clock answers a request for the same key exactly if the clock
/// has not moved on by more than the time to live when it is read for the request.
pub proof fn law_get_after_set<K: CacheKey, V: Clone>(
    cache: &mut RESTfulCache<K, V>,
    stored_under: K,
    value: V,
    stored: &mut RESTfulCache<K, V>,
    key: K,
    r: Lookup<K, V>,
    now: int,
)
    requires
        call_ensures(RESTfulCache::<K, V>::set, (cache, stored_under, value), ()),
        *stored == *final(cache),
        call_ensures(RESTfulCache::<K, V>::get, (stored, key), r),
        key.id() == stored_under.id(),
        now >= final(cache).latest(),
        now >= final(stored).clock().shown()[old(stored).clock().shown().len() as int],
        now == final(cache).latest() || now == final(stored).clock().shown()[old(stored).clock().shown().len() as int],
    ensures
        now <= final(stored).latest(),
        now - final(cache).latest() <= old(cache)@.ttl ==> (
        r matches Lookup::Hit(served) && cloned(value, served)),
        now - final(cache).latest() > old(cache)@.ttl ==> r == Lookup::<K, V>::Fetch(key),
{
    let taken = final(stored).shown_since(*old(stored));
    let by = times(old(stored).latest(), taken);
    assert(by.len() >= 2);
    law_times_are_the_running_maximum(old(stored).latest(), taken, 0);
    assert(taken[0] == final(stored).clock().shown()[old(stored).clock().shown().len() as int]);
    assert(by[0] == now);
    assert(by[0] <= by[by.len() - 1]);
}

} // verus!
