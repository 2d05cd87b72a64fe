use restful_cache::{Duration, Instant, Lookup, RESTfulCache};

type Cache = RESTfulCache<String, String>;

fn value_for(key: &str) -> Result<String, String> {
    Ok(format!("value_for_{}", key))
}

fn failing(_key: &str) -> Result<String, String> {
    Err("Fetch failed".to_string())
}

/// Requests a key; what was fetched is stored before the next request.
fn request(
    cache: &mut Cache,
    key: &str,
    fetch: fn(&str) -> Result<String, String>,
) -> Result<String, String> {
    match cache.get(key.to_string()) {
        Lookup::Hit(value) => Ok(value),
        Lookup::Fetch(key) => {
            let fetched = fetch(&key);
            let settled = Cache::settle(key, fetched);
            if let Some((key, value)) = settled.update {
                cache.set(key, value);
            }
            settled.reply
        }
    }
}

/// Waits on the system clock.
fn wait(millis: u64) {
    let start = std::time::Instant::now();
    while start.elapsed() < std::time::Duration::from_millis(millis) {}
}

fn at_secs(secs: u64) -> Instant {
    Instant::origin().checked_add(Duration::from_secs(secs)).unwrap()
}

#[test]
fn test_cache_basic_operations() {
    let ttl = Duration::from_secs(1);
    let mut cache: Cache = RESTfulCache::new(ttl);

    let result = request(&mut cache, "test_key", value_for);
    assert!(result.is_ok());
    assert_eq!(result.unwrap(), "value_for_test_key");

    let (hits, requests, _) = cache.stats();
    assert_eq!(requests, 1);
    assert_eq!(hits, 0);
}

#[test]
fn test_cache_hit() {
    let ttl = Duration::from_secs(2);
    let mut cache: Cache = RESTfulCache::new(ttl);

    let result1 = request(&mut cache, "test_key", value_for);
    assert!(result1.is_ok());

    wait(50);

    let result2 = request(&mut cache, "test_key", value_for);
    assert!(result2.is_ok());
    assert_eq!(result1.unwrap(), result2.unwrap());

    let (hits, requests, _) = cache.stats();
    assert_eq!(requests, 2);
    assert_eq!(hits, 1);
}

#[test]
fn test_cache_ttl_expiration() {
    let ttl = Duration::from_millis(100);
    let mut cache: Cache = RESTfulCache::new(ttl);

    let result1 = request(&mut cache, "test_key", value_for);
    assert!(result1.is_ok());

    wait(150);

    let result2 = request(&mut cache, "test_key", value_for);
    assert!(result2.is_ok());

    let (hits, requests, _) = cache.stats();
    assert_eq!(requests, 2);
    assert_eq!(hits, 0);
}

#[test]
fn test_manual_set_and_get() {
    let ttl = Duration::from_secs(1);
    let mut cache: Cache = RESTfulCache::new(ttl);

    cache.set("manual_key".to_string(), "manual_value".to_string());

    let result = request(&mut cache, "manual_key", value_for);
    assert!(result.is_ok());
    assert_eq!(result.unwrap(), "manual_value");

    let (hits, requests, _) = cache.stats();
    assert_eq!(requests, 1);
    assert_eq!(hits, 1);
}

#[test]
fn test_should_fetch_logic() {
    let ttl = Duration::from_millis(100);
    let mut cache: Cache = RESTfulCache::new(ttl);

    let now = cache.now();
    assert!(cache.should_fetch(&"nonexistent".to_string(), now));

    cache.set("existing_key".to_string(), "value".to_string());
    let now = cache.now();
    assert!(!cache.should_fetch(&"existing_key".to_string(), now));

    wait(150);
    let now = cache.now();
    assert!(cache.should_fetch(&"existing_key".to_string(), now));
}

#[test]
fn test_eviction() {
    let ttl = Duration::from_secs(2);
    let mut cache: Cache = RESTfulCache::new(ttl);
    let key1 = "key1".to_string();
    let key2 = "key2".to_string();

    cache.set(key1.clone(), "value1".to_string());
    cache.set(key2.clone(), "value2".to_string());
    assert!(cache.responses().contains_key(&key1));
    assert!(cache.fetched_at().contains_key(&key1));
    assert!(cache.responses().contains_key(&key2));
    assert!(cache.fetched_at().contains_key(&key2));

    assert_eq!(cache.responses().len(), 2);
    assert_eq!(cache.fetched_at().len(), 2);

    let old_timestamp = cache.now().checked_sub(Duration::from_secs(3)).unwrap();
    cache.set_at(key1.clone(), "value1".to_string(), old_timestamp);
    cache.set_at(key2.clone(), "value2".to_string(), old_timestamp);

    let evicted = cache.evict();
    assert!(evicted);

    assert_eq!(cache.responses().len(), 0);
    assert_eq!(cache.fetched_at().len(), 0);

    let evicted_again = cache.evict();
    assert!(!evicted_again);
}

#[test]
fn test_fetch_error_handling() {
    let ttl = Duration::from_secs(1);
    let mut cache: Cache = RESTfulCache::new(ttl);

    let result = request(&mut cache, "test_key", failing);
    assert!(result.is_err());
    assert_eq!(result.unwrap_err(), "Fetch failed");
    assert_eq!(cache.responses().len(), 0);

    let (hits, requests, _) = cache.stats();
    assert_eq!(requests, 1);
    assert_eq!(hits, 0);
}

#[test]
fn test_concurrent_access() {
    let ttl = Duration::from_secs(1);
    let mut cache: Cache = RESTfulCache::new(ttl);

    // All requests are under way before the first response comes in.
    let mut pending = Vec::new();
    for i in 0..10 {
        pending.push(cache.get(format!("key_{}", i)));
    }
    let mut answered = 0;
    for lookup in pending {
        if let Lookup::Fetch(key) = lookup {
            let fetched = value_for(&key);
            let settled = Cache::settle(key, fetched);
            let (key, value) = settled.update.unwrap();
            cache.set(key, value);
            assert!(settled.reply.is_ok());
            answered += 1;
        }
    }
    assert_eq!(answered, 10);

    let (hits, requests, _) = cache.stats();
    assert_eq!(requests, 10);
    assert_eq!(hits, 0);
}

#[test]
fn test_activity_tracking() {
    let ttl = Duration::from_secs(1);
    let mut cache: Cache = RESTfulCache::new(ttl);

    for i in 0..5 {
        let _ = request(&mut cache, &format!("key_{}", i), value_for);
    }

    let (_, _, activity_count) = cache.stats();
    assert_eq!(activity_count, 5);
}

#[test]
fn test_same_key_multiple_requests() {
    let ttl = Duration::from_secs(2);
    let mut cache: Cache = RESTfulCache::new(ttl);

    let result1 = request(&mut cache, "same_key", value_for);
    assert!(result1.is_ok());

    wait(50);

    let result2 = request(&mut cache, "same_key", value_for);
    let result3 = request(&mut cache, "same_key", value_for);

    assert!(result2.is_ok());
    assert!(result3.is_ok());
    assert_eq!(result1.unwrap(), result2.as_ref().unwrap().clone());
    assert_eq!(result2.unwrap(), result3.unwrap());

    let (hits, requests, _) = cache.stats();
    assert_eq!(requests, 3);
    assert_eq!(hits, 2);
}

#[test]
fn fresh_up_to_and_including_the_time_to_live() {
    let mut cache: RESTfulCache<u64, &'static str> = RESTfulCache::new(Duration::from_secs(10));
    cache.set_at(1, "one", at_secs(5));
    assert!(!cache.should_fetch(&1, at_secs(5)));
    assert!(!cache.should_fetch(&1, at_secs(15)));
    let just_after = Instant::after_origin(15_000_000_001);
    assert!(cache.should_fetch(&1, just_after));
    assert!(cache.should_fetch(&1, at_secs(1000)));
    // A response from the future has no age.
    assert!(!cache.should_fetch(&1, at_secs(0)));
    assert!(cache.should_fetch(&2, at_secs(5)));
}

#[test]
fn stored_response_is_served_then_fetched_again() {
    let mut cache: RESTfulCache<u64, &'static str> = RESTfulCache::new(Duration::from_secs(10));
    cache.set_at(1, "one", at_secs(0));
    assert!(matches!(cache.get_at(1, at_secs(10), &vec![]), Lookup::Hit("one")));
    assert!(matches!(cache.get_at(1, at_secs(11), &vec![]), Lookup::Fetch(1)));
    cache.set_at(1, "uno", at_secs(11));
    assert!(matches!(cache.get_at(1, at_secs(12), &vec![]), Lookup::Hit("uno")));
    assert_eq!(cache.stats(), (2, 3, 3));
}

#[test]
fn storing_leaves_other_keys() {
    let mut cache: RESTfulCache<u64, &'static str> = RESTfulCache::new(Duration::from_secs(10));
    cache.set_at(1, "one", at_secs(0));
    cache.set_at(2, "two", at_secs(5));
    assert!(cache.should_fetch(&1, at_secs(12)));
    assert!(!cache.should_fetch(&2, at_secs(12)));
    assert_eq!(cache.responses().get(&1), Some(&"one"));
    assert_eq!(cache.fetched_at().get(&2), Some(&at_secs(5)));
    assert_eq!(cache.stats(), (0, 0, 0));
}

#[test]
fn eviction_drops_just_the_stale() {
    let mut cache: RESTfulCache<u64, &'static str> = RESTfulCache::new(Duration::from_secs(10));
    cache.set_at(1, "one", at_secs(0));
    cache.set_at(2, "two", at_secs(5));
    cache.set_at(3, "three", at_secs(1));
    assert!(!cache.evict_at(at_secs(10)));
    assert_eq!(cache.responses().len(), 3);
    assert!(cache.evict_at(at_secs(12)));
    assert_eq!(cache.responses().len(), 1);
    assert_eq!(cache.responses().get(&2), Some(&"two"));
    assert!(!cache.fetched_at().contains_key(&1));
    assert!(!cache.fetched_at().contains_key(&3));
    assert!(!cache.evict_at(at_secs(12)));
    assert!(cache.evict_at(at_secs(16)));
    assert_eq!(cache.responses().len(), 0);
}

#[test]
fn eviction_is_not_noticed() {
    let mut kept: RESTfulCache<u64, u64> = RESTfulCache::new(Duration::from_secs(10));
    let mut swept: RESTfulCache<u64, u64> = RESTfulCache::new(Duration::from_secs(10));
    for i in 0..20u64 {
        kept.set_at(i, i, at_secs(i));
        swept.set_at(i, i, at_secs(i));
    }
    assert!(swept.evict_at(at_secs(20)));
    for i in 0..20u64 {
        assert_eq!(kept.should_fetch(&i, at_secs(20)), swept.should_fetch(&i, at_secs(20)));
        assert_eq!(kept.should_fetch(&i, at_secs(25)), swept.should_fetch(&i, at_secs(25)));
    }
}

#[test]
fn requests_stay_recent_for_an_hour() {
    let mut cache: RESTfulCache<u64, u64> = RESTfulCache::new(Duration::from_secs(10));
    let _ = cache.get_at(1, at_secs(0), &vec![at_secs(0)]);
    let _ = cache.get_at(1, at_secs(1), &vec![at_secs(1)]);
    assert_eq!(cache.stats_at(at_secs(1)), (0, 2, 2));
    // An hour to the nanosecond is still recent.
    let _ = cache.get_at(1, at_secs(3600), &vec![at_secs(3600); 3]);
    assert_eq!(cache.stats_at(at_secs(3600)), (0, 3, 3));
    let just_after = Instant::after_origin(3_600_000_000_001);
    let _ = cache.get_at(1, just_after, &vec![just_after; 4]);
    assert_eq!(cache.stats_at(just_after), (0, 4, 3));
    let _ = cache.get_at(1, at_secs(9000), &vec![at_secs(9000); 4]);
    assert_eq!(cache.stats_at(at_secs(9000)), (0, 5, 1));
}

#[test]
fn stats_count_the_last_hour() {
    let mut cache: RESTfulCache<u64, u64> = RESTfulCache::new(Duration::from_secs(10));
    let _ = cache.get_at(1, at_secs(0), &vec![at_secs(0)]);
    assert_eq!(cache.stats_at(at_secs(0)), (0, 1, 1));
    assert_eq!(cache.stats_at(at_secs(3600)), (0, 1, 1));
    assert_eq!(cache.stats_at(Instant::after_origin(3_600_000_000_001)), (0, 1, 0));
    assert_eq!(cache.stats_at(at_secs(7200)), (0, 1, 0));
    let _ = cache.get_at(1, at_secs(3000), &vec![at_secs(3000); 2]);
    assert_eq!(cache.stats_at(at_secs(3500)), (0, 2, 2));
    assert_eq!(cache.stats_at(at_secs(4000)), (0, 2, 1));
}

#[test]
fn a_key_goes_stale_whatever_comes_between() {
    let mut cache: RESTfulCache<u64, u64> = RESTfulCache::new(Duration::from_secs(10));
    cache.set_at(1, 11, at_secs(100));
    for t in 100..130u64 {
        let _ = cache.get_at(1, at_secs(t), &vec![at_secs(t); 60]);
        let _ = cache.get_at(2, at_secs(t), &vec![at_secs(t); 60]);
        cache.set_at(3, t, at_secs(t));
        cache.evict_at(at_secs(t));
        assert_eq!(cache.should_fetch(&1, at_secs(t)), t > 110);
    }
    // The requests for the first key from 100 to 110 were hits.
    assert_eq!(cache.stats_at(at_secs(130)), (11, 60, 60));
}

#[test]
fn readings_do_not_go_back() {
    let mut cache: Cache = RESTfulCache::new(Duration::from_secs(10));
    let mut before = cache.now();
    for i in 0..100 {
        let key = format!("key_{}", i);
        cache.set(key.clone(), "value".to_string());
        let stored_at = *cache.fetched_at().get(&key).unwrap();
        assert!(!stored_at.is_before(&before));
        let _ = cache.get(key);
        before = cache.now();
        assert!(!before.is_before(&stored_at));
    }
}

#[test]
fn each_request_is_held_against_its_own_reading() {
    let mut cache: RESTfulCache<u64, u64> = RESTfulCache::new(Duration::from_secs(10));
    let _ = cache.get_at(1, at_secs(0), &vec![]);
    let _ = cache.get_at(1, at_secs(1), &vec![]);
    let _ = cache.get_at(1, at_secs(3600), &vec![at_secs(3601), at_secs(3601), at_secs(9999)]);
    assert_eq!(cache.stats_at(at_secs(3600)), (0, 3, 2));
}

#[test]
fn zero_time_to_live() {
    let mut cache: Cache = RESTfulCache::new(Duration::from_secs(0));
    let now = cache.now();
    assert!(cache.should_fetch(&"nonexistent".to_string(), now));
    let result = request(&mut cache, "test_key", value_for);
    assert_eq!(result, Ok("value_for_test_key".to_string()));
    assert_eq!(cache.stats(), (0, 1, 1));

    // A response is fresh at the very moment at which it was stored.
    let mut cache: RESTfulCache<u64, u64> = RESTfulCache::new(Duration::from_secs(0));
    assert!(cache.should_fetch(&1, at_secs(5)));
    assert!(matches!(cache.get_at(1, at_secs(5), &vec![]), Lookup::Fetch(1)));
    cache.set_at(1, 11, at_secs(5));
    assert!(!cache.should_fetch(&1, at_secs(5)));
    assert!(cache.should_fetch(&1, Instant::after_origin(5_000_000_001)));
}

#[test]
fn longest_time_to_live() {
    let half = Duration::from_secs(1 << 62);
    let cache: RESTfulCache<u64, u64> = RESTfulCache::new(half);
    assert!(cache.can_look_back(Instant::origin()));
    let cache: RESTfulCache<u64, u64> = RESTfulCache::new(Duration::from_secs((1 << 62) + 1));
    assert!(!cache.can_look_back(Instant::origin()));
    assert!(cache.can_look_back(at_secs(2)));
    let cache: RESTfulCache<u64, u64> = RESTfulCache::new(Duration::from_secs(1 << 63));
    assert!(!cache.can_look_back(at_secs(2)));
}

#[test]
fn settling_a_fetch() {
    let stored = RESTfulCache::<u64, String>::settle::<String>(7, Ok("seven".to_string()));
    assert_eq!(stored.reply, Ok("seven".to_string()));
    assert_eq!(stored.update, Some((7, "seven".to_string())));
    let failed = RESTfulCache::<u64, String>::settle::<String>(7, Err("no".to_string()));
    assert_eq!(failed.reply, Err("no".to_string()));
    assert_eq!(failed.update, None);
}

#[test]
fn clock_goes_on() {
    let mut cache: Cache = RESTfulCache::new(Duration::from_secs(1));
    let before = cache.now();
    wait(20);
    let passed = cache.now().duration_since(before);
    assert!(!Duration::from_millis(20).exceeds(&passed));
    assert!(Duration::from_secs(10).exceeds(&passed));
}

#[test]
fn last_response_counts_in_any_order_of_keys() {
    let mut one: RESTfulCache<u64, &'static str> = RESTfulCache::new(Duration::from_secs(10));
    one.set_at(1, "first", at_secs(0));
    one.set_at(1, "last", at_secs(4));
    one.set_at(2, "two", at_secs(3));
    let mut other: RESTfulCache<u64, &'static str> = RESTfulCache::new(Duration::from_secs(10));
    other.set_at(2, "two", at_secs(3));
    other.set_at(1, "last", at_secs(4));
    for key in [1, 2, 3] {
        assert_eq!(one.responses().get(&key), other.responses().get(&key));
        assert_eq!(one.fetched_at().get(&key), other.fetched_at().get(&key));
    }
    assert_eq!(one.responses().get(&1), Some(&"last"));
    assert_eq!(one.fetched_at().get(&1), Some(&at_secs(4)));
    assert_eq!(one.responses().len(), 2);
}

#[test]
fn every_request_is_counted() {
    let mut cache: RESTfulCache<u64, u64> = RESTfulCache::new(Duration::from_secs(10));
    let mut asked = 0;
    for t in 0..100u64 {
        let key = t % 7;
        if let Lookup::Fetch(key) = cache.get_at(key, at_secs(t), &vec![at_secs(t); 200]) {
            cache.set_at(key, t, at_secs(t));
        }
        asked += 1;
        if t % 13 == 0 {
            cache.evict_at(at_secs(t));
        }
        let (hits, requests, recent) = cache.stats_at(at_secs(t));
        assert_eq!(requests, asked);
        assert!(hits <= requests);
        assert_eq!(recent, requests);
    }
    // A key comes up every 7 seconds: each fetch is followed by one hit.
    assert_eq!(cache.stats().0, 49);
}

#[test]
fn stored_key_stays_until_a_sweep() {
    let mut cache: RESTfulCache<String, u64> = RESTfulCache::new(Duration::from_secs(10));
    cache.set_at("kept".to_string(), 1, at_secs(0));
    for t in 20..40 {
        let _ = cache.get_at("kept".to_string(), at_secs(t), &vec![at_secs(t); 30]);
        assert!(cache.responses().contains_key(&"kept".to_string()));
    }
    assert!(cache.evict_at(at_secs(40)));
    assert!(!cache.responses().contains_key(&"kept".to_string()));
}
