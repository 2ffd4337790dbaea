use layer7waf::bot_detect::{decide, BotCheckResult, BotDetector, BotVerdict};
use layer7waf::config::{BotDetectionConfig, BotDetectionMode, JsChallengeConfig};
use layer7waf::js_challenge::{generate_challenge_at, sign_challenge};
use layer7waf::known_bots::BotPattern;

fn test_config(mode: BotDetectionMode) -> BotDetectionConfig {
    BotDetectionConfig {
        enabled: true,
        mode,
        js_challenge: JsChallengeConfig {
            enabled: true,
            difficulty: 16,
            ttl_secs: 3600,
            secret: "test-secret".to_string(),
        },
        score_threshold: 700,
        known_bots_allowlist: vec![],
    }
}

fn browser_headers() -> Vec<(String, String)> {
    vec![
        ("Host".into(), "example.com".into()),
        (
            "User-Agent".into(),
            "Mozilla/5.0 (X11; Linux x86_64) AppleWebKit/537.36 Chrome/120.0".into(),
        ),
        ("Accept".into(), "text/html,application/xhtml+xml".into()),
        ("Accept-Encoding".into(), "gzip, deflate, br".into()),
        ("Accept-Language".into(), "en-US,en;q=0.9".into()),
    ]
}

fn curl_headers() -> Vec<(String, String)> {
    vec![
        ("Host".into(), "example.com".into()),
        ("User-Agent".into(), "curl/7.88.1".into()),
        ("Accept".into(), "*/*".into()),
    ]
}

#[test]
fn test_disabled_detector_allows_all() {
    let mut config = test_config(BotDetectionMode::Block);
    config.enabled = false;
    let mut detector = BotDetector::new(config);
    let result = detector.check("1.2.3.4", &curl_headers(), "GET", None);
    assert!(matches!(result, BotCheckResult::Allow));
}

#[test]
fn test_browser_request_allowed() {
    let mut detector = BotDetector::new(test_config(BotDetectionMode::Block));
    let result = detector.check("1.2.3.4", &browser_headers(), "GET", None);
    assert!(matches!(result, BotCheckResult::Allow));
}

#[test]
fn test_curl_blocked_in_block_mode() {
    let mut detector = BotDetector::new(test_config(BotDetectionMode::Block));
    let result = detector.check("1.2.3.4", &curl_headers(), "GET", None);
    assert!(matches!(result, BotCheckResult::Block));
}

#[test]
fn test_curl_challenged_in_challenge_mode() {
    let mut detector = BotDetector::new(test_config(BotDetectionMode::Challenge));
    let result = detector.check("1.2.3.4", &curl_headers(), "GET", None);
    assert!(matches!(result, BotCheckResult::Challenge(_)));
}

#[test]
fn test_curl_detected_in_detect_mode() {
    let mut detector = BotDetector::new(test_config(BotDetectionMode::Detect));
    let result = detector.check("1.2.3.4", &curl_headers(), "GET", None);
    match result {
        BotCheckResult::Detect { score } => assert!(score >= 700),
        other => panic!("expected Detect, got {:?}", other),
    }
}

#[test]
fn test_googlebot_always_allowed() {
    let mut detector = BotDetector::new(test_config(BotDetectionMode::Block));
    let headers = vec![
        ("Host".into(), "example.com".into()),
        ("User-Agent".into(), "Mozilla/5.0 (compatible; Googlebot/2.1)".into()),
    ];
    let result = detector.check("66.249.66.1", &headers, "GET", None);
    assert!(matches!(result, BotCheckResult::Allow));
}

#[test]
fn lib_test_session_tracking() {
    let mut detector = BotDetector::new(test_config(BotDetectionMode::Detect));
    assert_eq!(detector.session_count(), 0);
    detector.check("1.2.3.4", &browser_headers(), "GET", None);
    assert_eq!(detector.session_count(), 1);
    detector.check("5.6.7.8", &browser_headers(), "GET", None);
    assert_eq!(detector.session_count(), 2);
}

#[test]
fn bot_verdict_table() {
    // decide(enabled, mode, challenge enabled, threshold, pattern, score, valid challenge)
    assert_eq!(decide(false, BotDetectionMode::Block, true, 700, BotPattern::KnownBadBot, 1000, false), BotVerdict::Allow);
    assert_eq!(decide(true, BotDetectionMode::Block, true, 700, BotPattern::KnownGoodBot, 1000, false), BotVerdict::Allow);
    assert_eq!(decide(true, BotDetectionMode::Challenge, true, 0, BotPattern::KnownGoodBot, 0, false), BotVerdict::Allow);
    assert_eq!(decide(true, BotDetectionMode::Detect, true, 700, BotPattern::KnownGoodBot, 1000, false), BotVerdict::Allow);
    assert_eq!(decide(true, BotDetectionMode::Block, true, 700, BotPattern::KnownBadBot, 700, false), BotVerdict::Block);
    assert_eq!(decide(true, BotDetectionMode::Block, true, 700, BotPattern::KnownBadBot, 699, false), BotVerdict::Allow);
    assert_eq!(decide(true, BotDetectionMode::Block, true, 700, BotPattern::KnownBadBot, 900, true), BotVerdict::Block);
    assert_eq!(decide(true, BotDetectionMode::Challenge, true, 700, BotPattern::KnownBadBot, 900, true), BotVerdict::Allow);
    assert_eq!(decide(true, BotDetectionMode::Challenge, true, 700, BotPattern::KnownBadBot, 900, false), BotVerdict::Challenge);
    assert_eq!(decide(true, BotDetectionMode::Challenge, false, 700, BotPattern::KnownBadBot, 900, false), BotVerdict::Block);
    assert_eq!(decide(true, BotDetectionMode::Challenge, true, 700, BotPattern::LikelyHuman, 100, false), BotVerdict::Allow);
    assert_eq!(decide(true, BotDetectionMode::Detect, true, 700, BotPattern::KnownBadBot, 900, false), BotVerdict::Detect);
    assert_eq!(decide(true, BotDetectionMode::Detect, true, 700, BotPattern::LikelyHuman, 100, false), BotVerdict::Detect);
}

#[test]
fn good_bot_is_never_blocked_or_challenged() {
    for mode in [BotDetectionMode::Block, BotDetectionMode::Challenge, BotDetectionMode::Detect] {
        let mut config = test_config(mode);
        config.score_threshold = 0;
        let mut detector = BotDetector::new(config);
        for ua in ["Googlebot/2.1", "curl (like bingbot)", "APPLEBOT scrapy"] {
            let headers: Vec<(String, String)> = vec![("User-Agent".into(), ua.into())];
            let r = detector.check_at("66.249.66.1", &headers, "GET", None, 1_000, 0);
            assert!(matches!(r, BotCheckResult::Allow), "{ua} in {mode:?}");
        }
    }
}

#[test]
fn challenge_then_valid_cookie_is_allowed() {
    let mut detector = BotDetector::new(test_config(BotDetectionMode::Challenge));
    let headers: Vec<(String, String)> = vec![("User-Agent".into(), "curl/7.88.1".into())];
    match detector.check_at("5.6.7.8", &headers, "GET", None, 1_000, 0) {
        BotCheckResult::Challenge(html) => {
            assert_eq!(html, generate_challenge_at("5.6.7.8", 16, "test-secret", 1_000));
        }
        other => panic!("expected a challenge, got {:?}", other),
    }
    let tag = sign_challenge("5.6.7.8", "test-secret", "1000");
    let cookie = format!("__l7w_bc=5.6.7.8%3A1000%3A0000ab%3A{tag}");
    let r = detector.check_at("5.6.7.8", &headers, "GET", Some(&cookie), 1_050, 1);
    assert!(matches!(r, BotCheckResult::Allow));
    // Once the cookie has expired the client is challenged again.
    let r = detector.check_at("5.6.7.8", &headers, "GET", Some(&cookie), 4_601, 2);
    assert!(matches!(r, BotCheckResult::Challenge(_)));
    // The cookie is of no use to another client.
    let r = detector.check_at("5.6.7.9", &headers, "GET", Some(&cookie), 1_050, 3);
    assert!(matches!(r, BotCheckResult::Challenge(_)));
    // With the challenge switched off the client is refused.
    let mut config = test_config(BotDetectionMode::Challenge);
    config.js_challenge.enabled = false;
    let mut detector = BotDetector::new(config);
    let r = detector.check_at("5.6.7.8", &headers, "GET", None, 1_000, 0);
    assert!(matches!(r, BotCheckResult::Block));
}

#[test]
fn detect_mode_reports_the_exact_score() {
    let mut detector = BotDetector::new(test_config(BotDetectionMode::Detect));
    let r = detector.check_at("1.2.3.4", &curl_headers(), "GET", None, 0, 0);
    assert!(matches!(r, BotCheckResult::Detect { score: 1000 }));
    let r = detector.check_at("1.2.3.4", &browser_headers(), "GET", None, 0, 0);
    assert!(matches!(r, BotCheckResult::Detect { score: 100 }));
    let none: Vec<(String, String)> = vec![];
    let r = detector.check_at("1.2.3.4", &none, "GET", None, 0, 0);
    assert!(matches!(r, BotCheckResult::Detect { score: 700 }));
}

#[test]
fn bot_sessions_are_cleaned_by_age() {
    let mut detector = BotDetector::new(test_config(BotDetectionMode::Detect));
    detector.check_at("old", &browser_headers(), "GET", None, 0, 1_000);
    detector.check_at("new", &browser_headers(), "GET", None, 0, 5_000);
    detector.check_at("new", &browser_headers(), "GET", None, 0, 6_000);
    assert_eq!(detector.session_count(), 2);
    // A session stays while its age is below the limit.
    detector.cleanup_sessions_at(5_001, 6_000);
    assert_eq!(detector.session_count(), 2);
    detector.cleanup_sessions_at(5_000, 6_000);
    assert_eq!(detector.session_count(), 1);
    detector.cleanup_sessions_at(0, 6_001);
    assert_eq!(detector.session_count(), 0);
    // A disabled detector keeps no session.
    let mut config = test_config(BotDetectionMode::Detect);
    config.enabled = false;
    let mut detector = BotDetector::new(config);
    detector.check_at("x", &browser_headers(), "GET", None, 0, 0);
    assert_eq!(detector.session_count(), 0);
}

#[test]
fn cleanup_now_by_age() {
    let mut detector = BotDetector::new(test_config(BotDetectionMode::Detect));
    detector.check("1.2.3.4", &browser_headers(), "GET", None);
    detector.check("5.6.7.8", &browser_headers(), "GET", None);
    // Seen a moment ago: an hour is not yet over.
    detector.cleanup_sessions(3_600_000_000_000);
    assert_eq!(detector.session_count(), 2);
    detector.cleanup_sessions(0);
    assert_eq!(detector.session_count(), 0);
}
