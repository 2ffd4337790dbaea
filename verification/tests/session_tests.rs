use layer7waf::session::{hash_path, score_session, ScrapingSession};

#[test]
fn test_new_session_score_zero() {
    let session = ScrapingSession::new();
    assert_eq!(session.scraping_score, 0);
    assert_eq!(session.request_count, 0);
}

#[test]
fn test_record_request_increments_count() {
    let mut session = ScrapingSession::new();
    session.record_request("/page1", 0);
    assert_eq!(session.request_count, 1);
    assert_eq!(session.unique_path_count, 1);
}

#[test]
fn test_duplicate_paths_not_counted() {
    let mut session = ScrapingSession::new();
    session.record_request("/page1", 0);
    session.record_request("/page1", 0);
    assert_eq!(session.request_count, 2);
    assert_eq!(session.unique_path_count, 1);
}

#[test]
fn test_trap_triggered_raises_score() {
    let mut session = ScrapingSession::new();
    session.trap_triggered = true;
    session.record_request("/trap", 0);
    assert!(session.scraping_score >= 1000);
}

#[test]
fn test_captcha_solved_reduces_score() {
    let mut session = ScrapingSession::new();
    session.captcha_solved = true;
    session.record_request("/page", 500);
    // bot_score * 0.3 = 0.15, captcha -0.5 -> clamped to 0.0
    assert!(session.scraping_score < 200);
}

#[test]
fn test_bot_score_contributes() {
    let mut session = ScrapingSession::new();
    session.record_request("/page", 1000);
    // bot_score * 0.3 = 0.3
    assert!(session.scraping_score >= 300);
}

#[test]
fn score_formula_is_exact() {
    // trap, rate, paths, bot score, captcha
    assert_eq!(score_session(false, 0, 0, 0, 0, false), 0);
    assert_eq!(score_session(true, 0, 0, 0, 0, false), 1000);
    assert_eq!(score_session(false, 0, 0, 0, 1000, false), 300);
    assert_eq!(score_session(false, 0, 0, 0, 500, false), 150);
    assert_eq!(score_session(false, 0, 0, 0, 333, false), 99);
    assert_eq!(score_session(false, 0, 0, 21, 0, false), 200);
    assert_eq!(score_session(false, 0, 0, 20, 0, false), 0);
    // More than one request a second: 3 requests in 2 s.
    assert_eq!(score_session(false, 3, 2_000_000_000, 0, 0, false), 300);
    // Exactly one a second is not more than one.
    assert_eq!(score_session(false, 2, 2_000_000_000, 0, 0, false), 0);
    // No time has passed: no rate.
    assert_eq!(score_session(false, 100, 0, 0, 0, false), 0);
    assert_eq!(score_session(false, 3, 2_000_000_000, 21, 1000, false), 800);
    assert_eq!(score_session(true, 3, 2_000_000_000, 21, 1000, false), 1000);
    assert_eq!(score_session(true, 0, 0, 0, 0, true), 500);
    assert_eq!(score_session(false, 0, 0, 0, 1000, true), 0);
    assert_eq!(score_session(true, 3, 2_000_000_000, 21, 1000, true), 1000);
    assert_eq!(score_session(false, u64::MAX, 1, u64::MAX, u32::MAX, false), 1000);
}

#[test]
fn recording_at_given_times() {
    let mut s = ScrapingSession::new_at(1_000);
    assert_eq!(s.first_seen, 1_000);
    s.record_request_at("/a", 0, 1_000);
    assert_eq!((s.request_count, s.unique_path_count, s.last_seen), (1, 1, 1_000));
    assert_eq!(s.scraping_score, 0);
    s.record_request_at("/b", 0, 1_000 + 500_000_000);
    s.record_request_at("/c", 0, 1_000 + 1_000_000_000);
    // Three requests in one second: the rate is high.
    assert_eq!(s.scraping_score, 300);
    s.record_request_at("/c", 0, 1_000 + 10_000_000_000);
    assert_eq!((s.request_count, s.unique_path_count), (4, 3));
    assert_eq!(s.scraping_score, 0);
    for i in 0..30 {
        s.record_request_at(&format!("/p{i}"), 0, 1_000 + 100_000_000_000);
    }
    assert_eq!(s.unique_path_count, 33);
    assert_eq!(s.scraping_score, 200);
}

#[test]
fn sprung_trap_keeps_the_full_score() {
    let mut s = ScrapingSession::new_at(0);
    s.trap_triggered = true;
    for (i, bot) in [0u32, 100, 1000].into_iter().enumerate() {
        s.record_request_at("/x", bot, 1_000_000_000 * (i as u64 + 1) * 100);
        assert_eq!(s.scraping_score, 1000);
    }
}

#[test]
fn path_hash_is_fnv1a() {
    assert_eq!(hash_path(""), 0xcbf29ce484222325);
    assert_eq!(hash_path("a"), 0xaf63dc4c8601ec8c);
    assert_eq!(hash_path("foobar"), 0x85944171f73967e8);
    assert_ne!(hash_path("/page1"), hash_path("/page2"));
}
