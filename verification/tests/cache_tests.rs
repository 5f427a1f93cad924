use netease_music_api::cover_cache::{cover_response, CoverCache, CoverLookup};
use netease_music_api::http_error::HttpFailureKind;
use netease_music_api::netease::RateLimitKey;
use netease_music_api::rate_limit::{Admission, BucketTable, GovernorLimiter};

const SEC: u128 = 1_000_000_000;

fn hit(l: CoverLookup) -> Option<Vec<u8>> {
    match l {
        CoverLookup::Hit(d) => Some(d),
        _ => None,
    }
}

#[test]
fn cover_cache_hits_while_fresh() {
    let mut c = CoverCache::new(60, 10);
    assert!(matches!(c.lookup("", 0), CoverLookup::NoUrl));
    assert!(matches!(c.lookup("http://a", 0), CoverLookup::Miss));
    c.store("http://a", vec![1, 2, 3], 5 * SEC);
    assert_eq!(hit(c.lookup("http://a", 6 * SEC)), Some(vec![1, 2, 3]));
    // an entry exactly as old as the ttl has expired
    assert!(matches!(c.lookup("http://a", 65 * SEC), CoverLookup::Miss));
    // replacing keeps one entry
    c.store("http://a", vec![9], 70 * SEC);
    assert_eq!(hit(c.lookup("http://a", 71 * SEC)), Some(vec![9]));
}

#[test]
fn cover_cache_evicts_oldest_when_full() {
    let mut c = CoverCache::new(3600, 2);
    c.store("u1", vec![1], 1 * SEC);
    c.store("u2", vec![2], 2 * SEC);
    c.store("u3", vec![3], 3 * SEC);
    assert!(matches!(c.lookup("u1", 4 * SEC), CoverLookup::Miss));
    assert_eq!(hit(c.lookup("u2", 4 * SEC)), Some(vec![2]));
    assert_eq!(hit(c.lookup("u3", 4 * SEC)), Some(vec![3]));
    c.update_config(1, 2);
    assert!(matches!(c.lookup("u3", 10 * SEC), CoverLookup::Miss));
}

#[test]
fn cover_response_classification() {
    assert!(cover_response(200).is_ok());
    assert_eq!(cover_response(404), Err(HttpFailureKind::Permanent4xx { status: 404 }));
    assert_eq!(cover_response(503), Err(HttpFailureKind::Server5xx { status: 503 }));
    assert_eq!(cover_response(302), Err(HttpFailureKind::Network("HTTP 302 Found".into())));
}

fn key(host: &str, user: &str) -> RateLimitKey {
    RateLimitKey { host: host.into(), user: user.into() }
}

#[test]
fn lru_evicts_oldest_at_capacity() {
    let mut lim = GovernorLimiter::with_options(10, 20, 50, 3);
    for i in 0..3u128 {
        lim.table.record_use(&key("h", &format!("u{}", i)), i);
    }
    assert_eq!(lim.user_count(), 3);
    match lim.table.record_use(&key("h", "u3"), 10) {
        Admission::Created { evicted: Some(k) } => assert_eq!(k, key("h", "u0")),
        other => panic!("unexpected {other:?}"),
    }
    assert_eq!(lim.user_count(), 3, "the table never holds more than max_users buckets");
}

#[test]
fn recently_used_keys_survive_eviction() {
    let mut t = BucketTable::new(2);
    assert!(matches!(t.record_use(&key("h", "a"), 1), Admission::Created { evicted: None }));
    assert!(matches!(t.record_use(&key("h", "b"), 2), Admission::Created { evicted: None }));
    assert!(matches!(t.record_use(&key("h", "a"), 3), Admission::Existing));
    match t.record_use(&key("h", "c"), 4) {
        Admission::Created { evicted: Some(k) } => assert_eq!(k, key("h", "b")),
        other => panic!("unexpected {other:?}"),
    }
    assert_eq!(t.user_count(), 2);
}

#[test]
fn distinct_hosts_and_users_get_their_own_buckets() {
    let mut t = BucketTable::new(1024);
    t.record_use(&key("api1", "u1"), 1);
    t.record_use(&key("api2", "u1"), 2);
    t.record_use(&key("api1", "u2"), 3);
    assert_eq!(t.user_count(), 3);
}

#[test]
fn quota_parameters_have_floors() {
    let l = GovernorLimiter::new(0, 0);
    assert_eq!((l.rps, l.burst), (1, 1));
    assert_eq!(l.acquire_timeout_ms, 300);
    let l = GovernorLimiter::with_options(10, 5, 10, 8);
    assert_eq!((l.rps, l.burst), (10, 10));
    let l = GovernorLimiter::with_options(10, 20, 10, 8);
    assert_eq!((l.rps, l.burst), (10, 20));
    assert_eq!(l.quota.burst_size().get(), 20);
    let expected = governor::Quota::per_second(std::num::NonZeroU32::new(10).unwrap())
        .allow_burst(std::num::NonZeroU32::new(20).unwrap());
    assert_eq!(l.quota, expected);
    let l = GovernorLimiter::new(0, 0);
    assert_eq!(l.quota, governor::Quota::per_second(std::num::NonZeroU32::new(1).unwrap()));
}
