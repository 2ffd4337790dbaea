use layer7waf::token_bucket::{TokenBucketLimiter, TokenBucketState, IDLE_NANOS, TOKEN};

const MS: u64 = 1_000_000;
const SEC: u64 = 1_000_000_000;

#[test]
fn allows_up_to_burst() {
    let mut limiter = TokenBucketLimiter::new(10, 5);
    let key = "test-client";

    // Should allow up to burst (5) requests immediately.
    for _ in 0..5 {
        assert!(limiter.check(key), "should allow within burst");
    }

    // The 6th should be denied.
    assert!(!limiter.check(key), "should deny beyond burst");
}

#[test]
fn refills_over_time() {
    let mut limiter = TokenBucketLimiter::new(10, 5);
    let key = "refill-client";
    let start = 7 * SEC;

    // Drain all tokens.
    for _ in 0..5 {
        limiter.check_at(key, start);
    }
    assert!(!limiter.check_at(key, start));

    // Wait enough time for at least 1 token to refill (100ms at 10 rps = 1 token).
    assert!(limiter.check_at(key, start + 150 * MS), "should allow after refill");
}

#[test]
fn token_bucket_independent_keys() {
    let mut limiter = TokenBucketLimiter::new(10, 2);

    // Drain key A.
    assert!(limiter.check("a"));
    assert!(limiter.check("a"));
    assert!(!limiter.check("a"));

    // Key B should be unaffected.
    assert!(limiter.check("b"));
}

#[test]
fn token_bucket_cleanup_removes_stale_entries() {
    let mut limiter = TokenBucketLimiter::new(10, 10);
    // One entry last used six minutes before the other.
    limiter.check_at("will-be-stale", 0);
    limiter.check_at("keep-alive", 6 * 60 * SEC);
    assert_eq!(limiter.len(), 2);

    limiter.cleanup_at(6 * 60 * SEC);

    assert_eq!(limiter.len(), 1);
    // "keep-alive" is the one that stayed: it has 9 tokens left, not 10.
    for _ in 0..9 {
        assert!(limiter.check_at("keep-alive", 6 * 60 * SEC));
    }
    assert!(!limiter.check_at("keep-alive", 6 * 60 * SEC));
    // "will-be-stale" starts anew with a full bucket.
    for _ in 0..10 {
        assert!(limiter.check_at("will-be-stale", 6 * 60 * SEC));
    }
    assert!(!limiter.check_at("will-be-stale", 6 * 60 * SEC));
}

#[test]
fn burst_plus_one_at_one_moment_admits_exactly_burst() {
    for burst in [0u64, 1, 3, 17] {
        let mut limiter = TokenBucketLimiter::new(5, burst);
        let mut admitted = 0;
        for _ in 0..burst + 1 {
            if limiter.check_at("k", 42) {
                admitted += 1;
            }
        }
        assert_eq!(admitted, burst);
    }
}

#[test]
fn a_client_that_keeps_to_the_rate_is_never_refused() {
    let mut limiter = TokenBucketLimiter::new(4, 1);
    // 4 a second: one every 250 ms.
    for i in 0..1000u64 {
        assert!(limiter.check_at("paced", i * 250 * MS), "request {i}");
    }
    // One nanosecond early is too early.
    let mut limiter = TokenBucketLimiter::new(4, 1);
    assert!(limiter.check_at("k", 0));
    assert!(!limiter.check_at("k", 250 * MS - 1));
    assert!(limiter.check_at("k", 250 * MS));
}

#[test]
fn refill_is_exact_and_capped() {
    let mut s = TokenBucketState::full(2, 3, 1_000);
    assert_eq!(s.tokens, 3 * TOKEN);
    assert!(s.check_at(1_000));
    assert_eq!(s.tokens, 2 * TOKEN);
    // 0.1 s at 2 a second gains 0.2 tokens.
    assert!(s.check_at(1_000 + 100 * MS));
    assert_eq!(s.tokens, TOKEN + TOKEN / 5);
    assert_eq!(s.last_refill, 1_000 + 100 * MS);
    // A long pause fills the bucket up to the burst and no further.
    assert!(s.check_at(1_000 + 3600 * SEC));
    assert_eq!(s.tokens, 2 * TOKEN);
    // An earlier reading neither refills nor moves the time back.
    assert!(s.check_at(5));
    assert_eq!((s.tokens, s.last_refill), (TOKEN, 1_000 + 3600 * SEC));
    assert!(s.check_at(5));
    assert!(!s.check_at(5));
    assert_eq!((s.tokens, s.last_refill), (0, 1_000 + 3600 * SEC));
    // The largest numbers do not overflow.
    let mut s = TokenBucketState::full(u64::MAX, u64::MAX, 0);
    assert!(s.check_at(u64::MAX));
    assert_eq!(s.tokens, (u64::MAX as u128) * TOKEN - TOKEN);
}

#[test]
fn buckets_go_stale_after_five_minutes() {
    let s = TokenBucketState::full(1, 1, 100);
    assert_eq!(IDLE_NANOS, 300 * SEC);
    assert!(s.used_recently(100));
    assert!(s.used_recently(100 + IDLE_NANOS - 1));
    assert!(!s.used_recently(100 + IDLE_NANOS));
    assert!(s.used_recently(0));
}
