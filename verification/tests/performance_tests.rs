use core_engine::performance::{CacheEntry, Metrics, RateLimiter, TimedCache};

#[test]
fn test_rate_limiter() {
    let mut limiter = RateLimiter::new(2, 1);

    assert!(limiter.check());
    assert!(limiter.check());
    assert!(!limiter.check());
}

#[test]
fn test_metrics() {
    let mut m = Metrics::default();

    m.record_request(100);
    m.record_cache_hit();

    assert_eq!(m.request_count, 1);
    assert_eq!(m.cache_hits, 1);
}

#[test]
fn rate_limiter_window_slides() {
    let mut limiter = RateLimiter::new(2, 1);
    let s = 1_000_000_000u128;
    assert!(limiter.check_at(0));
    assert!(limiter.check_at(s / 2));
    assert!(!limiter.check_at(s - 1));
    // At exactly 1 s the request from time 0 has left the window.
    assert!(limiter.check_at(s));
    assert!(!limiter.check_at(s + 1));
    // Just after 1.5 s only the request from 1 s still counts.
    assert!(limiter.check_at(s + s / 2 + 1));
    assert!(!limiter.check_at(s + s / 2 + 2));
}

#[test]
fn rate_limiter_zero_allows_nothing() {
    let mut limiter = RateLimiter::new(0, 10);
    assert!(!limiter.check_at(5));
    assert!(!limiter.check());
}

#[test]
fn metrics_average_and_counters() {
    let mut m = Metrics::default();
    assert_eq!(m.avg_latency_ms(), 0);
    m.record_request(10);
    m.record_request(25);
    assert_eq!(m.avg_latency_ms(), 17);
    m.record_error();
    m.record_cache_miss();
    m.record_cache_miss();
    assert_eq!((m.request_count, m.error_count, m.total_latency_ms, m.cache_hits, m.cache_misses), (2, 1, 35, 0, 2));
}

#[test]
fn uniform_latency_averages_to_itself() {
    let mut m = Metrics::default();
    for _ in 0..7 {
        m.record_request(42);
    }
    assert_eq!(m.avg_latency_ms(), 42);
}

#[test]
fn cache_entry_expiry() {
    let e = CacheEntry::new("v".to_string(), 2);
    assert_eq!(e.value, "v");
    assert!(!e.is_expired());
    assert!(!e.is_expired_after(2_000_000_000));
    assert!(e.is_expired_after(2_000_000_001));
    let z = CacheEntry::new(1u8, 0);
    let mut spins = 0u64;
    while !z.is_expired() && spins < 1_000_000_000 {
        spins += 1;
    }
    assert!(z.is_expired());
}

#[test]
fn test_cache() {
    let mut cache: TimedCache<String> = TimedCache::new(1);

    cache.set("key1".to_string(), "value1".to_string());
    assert_eq!(cache.get("key1"), Some("value1".to_string()));

    let two_seconds_later = cache.now_ns() + 2_000_000_000;
    assert_eq!(cache.get_at("key1", two_seconds_later), None);
}

#[test]
fn cache_read_after_write_at_given_times() {
    let mut cache: TimedCache<u32> = TimedCache::new(10);
    cache.set_with_ttl_at("a".to_string(), 1, 2, 1_000);
    cache.set_with_ttl_at("b".to_string(), 2, 5, 1_000);
    assert_eq!(cache.get_at("a", 1_000 + 2_000_000_000), Some(1));
    assert_eq!(cache.get_at("a", 1_000 + 2_000_000_001), None);
    assert_eq!(cache.get_at("b", 1_000 + 2_000_000_001), Some(2));
    assert_eq!(cache.get_at("c", 0), None);
    // Overwriting replaces value and time to live.
    cache.set_with_ttl_at("a".to_string(), 7, 100, 5_000_000_000);
    assert_eq!(cache.get_at("a", 6_000_000_000), Some(7));
    assert_eq!(cache.remove("a"), Some(7));
    assert_eq!(cache.remove("a"), None);
    assert_eq!(cache.get_at("a", 6_000_000_000), None);
}

#[test]
fn cache_cleanup_and_clear() {
    let mut cache: TimedCache<&str> = TimedCache::new(1);
    cache.set_with_ttl_at("old".to_string(), "x", 1, 0);
    cache.set_with_ttl_at("new".to_string(), "y", 1, 3_000_000_000);
    cache.cleanup_expired_at(3_500_000_000);
    assert_eq!(cache.get_at("old", 0), None);
    assert_eq!(cache.get_at("new", 3_500_000_000), Some("y"));
    cache.cleanup_expired();
    cache.set("z".to_string(), "z");
    cache.clear();
    assert_eq!(cache.get("z"), None);
    assert_eq!(cache.get("new"), None);
}

#[test]
fn limiter_allows_at_most_max_per_window_across_checks() {
    let mut limiter = RateLimiter::new(2, 1);
    let times: [u128; 7] =
        [0, 1, 2, 999_999_999, 1_000_000_000, 1_000_000_001, 2_000_000_001];
    let mut allowed = Vec::new();
    for t in times {
        allowed.push(limiter.check_at(t));
    }
    assert_eq!(allowed, vec![true, true, false, false, true, true, true]);
    for (k, &now) in times.iter().enumerate() {
        let in_window = (0..=k)
            .filter(|&i| allowed[i] && times[i] + 1_000_000_000 > now)
            .count();
        assert!(in_window <= 2);
    }
}
