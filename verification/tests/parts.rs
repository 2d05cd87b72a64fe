use restful_cache::{CacheKey, Duration, EvictionSchedule, Instant, KeyMap, Sweep};

#[test]
fn spans() {
    assert_eq!(Duration::from_millis(1500).as_secs(), 1);
    assert_eq!(Duration::from_millis(1500).subsec_nanos(), 500_000_000);
    assert_eq!(Duration::from_parts(1, 500_000_000), Some(Duration::from_millis(1500)));
    assert_eq!(Duration::from_parts(1, 1_000_000_000), None);
    assert!(Duration::from_secs(0).is_zero());
    assert!(!Duration::from_millis(1).is_zero());
    assert!(Duration::from_millis(1001).exceeds(&Duration::from_secs(1)));
    assert!(!Duration::from_secs(1).exceeds(&Duration::from_secs(1)));
    assert_eq!(Duration::from_secs(3).checked_double(), Some(Duration::from_secs(6)));
    let longest = Duration::from_parts(u64::MAX, 999_999_999).unwrap();
    assert_eq!(longest.as_secs(), u64::MAX);
    assert_eq!(longest.checked_double(), None);
    assert_eq!(
        Duration::from_secs(u64::MAX / 2).checked_double(),
        Some(Duration::from_secs(u64::MAX - 1))
    );
    assert_eq!(Duration::from_secs(1 << 63).checked_double(), None);
}

#[test]
fn points() {
    let later = Instant::origin().checked_add(Duration::from_secs(5)).unwrap();
    assert_eq!(later, Instant::after_origin(5_000_000_000));
    assert_eq!(later.duration_since(Instant::origin()), Duration::from_secs(5));
    assert_eq!(Instant::origin().duration_since(later), Duration::from_secs(0));
    assert_eq!(later.checked_sub(Duration::from_secs(5)), Some(Instant::origin()));
    assert!(Instant::origin().is_before(&later) && !later.is_before(&later));
    let latest = Instant::after_origin(u128::MAX);
    assert_eq!(latest.checked_add(Duration::from_millis(1)), None);
    let longest = Duration::from_parts(u64::MAX, 999_999_999).unwrap();
    assert_eq!(Instant::origin().checked_sub(longest), None);
    let earliest = Instant::origin().checked_sub(Duration::from_secs(1 << 63)).unwrap();
    assert_eq!(earliest.checked_sub(Duration::from_millis(1)), None);
    assert_eq!(latest.duration_since(earliest), longest);
}

#[test]
fn pauses_double_while_idle() {
    let mut schedule = EvictionSchedule::new(Duration::from_millis(2500));
    assert_eq!(schedule.pause(), Duration::from_secs(4));
    schedule.advance(Sweep::Idle);
    assert_eq!(schedule.pause(), Duration::from_secs(8));
    schedule.advance(Sweep::Busy);
    assert_eq!(schedule.pause(), Duration::from_secs(8));
    schedule.advance(Sweep::Idle);
    assert_eq!(schedule.pause(), Duration::from_secs(16));
    schedule.advance(Sweep::Evicted);
    assert_eq!(schedule.pause(), Duration::from_secs(4));
}

#[test]
fn no_pause_below_a_second() {
    let mut schedule = EvictionSchedule::new(Duration::from_millis(999));
    assert!(schedule.pause().is_zero());
    schedule.advance(Sweep::Idle);
    assert!(schedule.pause().is_zero());
}

#[test]
fn keys_of_one_digest_share_a_bucket() {
    let mut map: KeyMap<(u64, u64), &'static str> = KeyMap::new();
    assert_eq!((1u64, 2u64).digest(), (0u64, 0u64).digest());
    map.insert((1, 2), "a");
    map.insert((0, 0), "b");
    map.insert((2, 4), "c");
    map.insert((0, 0), "d");
    assert_eq!(map.len(), 3);
    assert_eq!(map.get(&(1, 2)), Some(&"a"));
    assert_eq!(map.get(&(0, 0)), Some(&"d"));
    assert_eq!(map.get(&(2, 4)), Some(&"c"));
    assert_eq!(map.get(&(3, 6)), None);
    let mut keys = map.keys();
    keys.sort();
    assert_eq!(keys, vec![(0, 0), (1, 2), (2, 4)]);
    map.remove(&(1, 2));
    map.remove(&(3, 6));
    assert_eq!(map.len(), 2);
    assert!(!map.contains_key(&(1, 2)));
    assert!(map.contains_key(&(0, 0)));
    assert!(map.contains_key(&(2, 4)));
}

#[test]
fn keys_of_every_kind() {
    assert!("a".to_string().same(&"a".to_string()));
    assert!(!"a".to_string().same(&"b".to_string()));
    assert_eq!("a".to_string().digest(), "a".to_string().digest());
    assert_ne!("a".to_string().digest(), "b".to_string().digest());
    assert_eq!("a".to_string().duplicate(), "a".to_string());
    assert!(3u32.same(&3) && !3u32.same(&4) && 3u32.digest() == 3 && 3u32.duplicate() == 3);
    assert!(3u64.same(&3) && !3u64.same(&4) && 3u64.digest() == 3 && 3u64.duplicate() == 3);
    assert!(3usize.same(&3) && !3usize.same(&4) && 3usize.digest() == 3 && 3usize.duplicate() == 3);
    assert!((-1i64).same(&-1) && !3i64.same(&4) && (-1i64).digest() == u64::MAX);
    assert_eq!((-1i64).duplicate(), -1);
    assert!((1u64, 2u32).same(&(1, 2)) && !(1u64, 2u32).same(&(1, 3)) && !(1u64, 2u32).same(&(0, 2)));
    assert_eq!((1u64, 2u32).duplicate(), (1, 2));
    let mut map: KeyMap<String, u64> = KeyMap::new();
    map.insert("x".to_string(), 1);
    map.insert("y".to_string(), 2);
    map.insert("x".to_string(), 3);
    assert_eq!(map.get(&"x".to_string()), Some(&3));
    assert_eq!(map.len(), 2);
    map.remove(&"x".to_string());
    assert_eq!(map.keys(), vec!["y".to_string()]);
}
