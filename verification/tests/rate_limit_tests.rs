use layer7waf::rate_limit::{RateLimiter, RateLimiterInner};

#[test]
fn token_bucket_through_facade() {
    let mut limiter = RateLimiter::new_token_bucket(5, 3);

    // Should allow burst of 3.
    assert!(limiter.check("client-a"));
    assert!(limiter.check("client-a"));
    assert!(limiter.check("client-a"));

    // 4th request exceeds burst.
    assert!(!limiter.check("client-a"));

    // Different key is independent.
    assert!(limiter.check("client-b"));
}

#[test]
fn sliding_window_through_facade() {
    let mut limiter = RateLimiter::new_sliding_window(5, 1);

    // Limit = 5 * 1 = 5 per window.
    for i in 0..5 {
        assert!(limiter.check("client-x"), "request {} should pass", i);
    }

    assert!(!limiter.check("client-x"), "should deny beyond window limit");
}

#[test]
fn test_token_bucket_basic() {
    let mut limiter = RateLimiter::new_token_bucket(10, 5);

    // Should allow burst of 5
    for _ in 0..5 {
        assert!(limiter.check("test-client"));
    }

    // 6th request should be denied
    assert!(!limiter.check("test-client"));
}

#[test]
fn test_token_bucket_different_keys() {
    let mut limiter = RateLimiter::new_token_bucket(10, 2);

    assert!(limiter.check("client-a"));
    assert!(limiter.check("client-a"));
    assert!(!limiter.check("client-a"));

    // Different client should have its own bucket
    assert!(limiter.check("client-b"));
    assert!(limiter.check("client-b"));
    assert!(!limiter.check("client-b"));
}

#[test]
fn test_sliding_window_basic() {
    let mut limiter = RateLimiter::new_sliding_window(5, 1);

    // Should allow 5 requests per 1-second window
    for _ in 0..5 {
        assert!(limiter.check("test-client"));
    }

    // 6th should be denied
    assert!(!limiter.check("test-client"));
}

#[test]
fn rate_limit_burst_scenario() {
    // rps = 5, burst = 3: six requests within 10 ms.
    let mut limiter = RateLimiter::new_token_bucket(5, 3);
    let admitted: Vec<bool> =
        (0..6u64).map(|i| limiter.check_at("1.2.3.4", 1_000_000_000 + i * 2_000_000)).collect();
    assert_eq!(admitted, vec![true, true, true, false, false, false]);
}

#[test]
fn facade_cleanup_and_sizes() {
    let mut limiter = RateLimiter::new_token_bucket(1, 1);
    limiter.check_at("a", 0);
    limiter.check_at("b", 400_000_000_000);
    assert_eq!(limiter.len(), 2);
    limiter.cleanup_at(400_000_000_000);
    assert_eq!(limiter.len(), 1);
    limiter.cleanup();
    assert!(matches!(limiter.inner, RateLimiterInner::TokenBucket(_)));

    assert!(RateLimiter::try_new_sliding_window(5, 0).is_none());
    assert!(RateLimiter::try_new_sliding_window(u64::MAX, 2).is_none());
    assert!(RateLimiter::try_new_sliding_window(1, 18_446_744_074).is_none());
    let mut window = RateLimiter::try_new_sliding_window(1, 18_446_744_073).unwrap();
    assert!(matches!(window.inner, RateLimiterInner::SlidingWindow(_)));
    assert!(window.check_at("k", 0));
    assert_eq!(window.len(), 1);
    window.cleanup_at(u64::MAX);
    assert_eq!(window.len(), 1);
}

#[test]
fn cleanup_now_keeps_what_was_just_used() {
    let mut buckets = RateLimiter::new_token_bucket(1, 1);
    assert!(buckets.check("a"));
    assert!(!buckets.check("a"));
    buckets.cleanup();
    assert_eq!(buckets.len(), 1);
    // The bucket that stayed is the one that was emptied.
    assert!(!buckets.check("a"));
    let mut windows = RateLimiter::new_sliding_window(1, 1);
    assert!(windows.check("a"));
    windows.cleanup();
    assert_eq!(windows.len(), 1);
    assert!(!windows.check("a"));
    assert!(windows.check("b"));
    assert_eq!(windows.len(), 2);
}
