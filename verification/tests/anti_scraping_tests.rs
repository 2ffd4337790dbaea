use layer7waf::anti_scraping::{decide, AntiScraper, ScrapingCheckResult, ScrapingVerdict};
use layer7waf::captcha::{draw_captcha, issue_token};
use layer7waf::config::{
    AntiScrapingConfig, AntiScrapingMode, CaptchaConfig, HoneypotConfig, ObfuscationConfig,
};
use layer7waf::digest::sha256_hex_str;
use layer7waf::honeypot::generate_trap_html;
use layer7waf::obfuscation::{extract_watermark, ZWC_ONE, ZWC_ZERO};

fn test_config(mode: AntiScrapingMode) -> AntiScrapingConfig {
    AntiScrapingConfig {
        enabled: true,
        mode,
        captcha: CaptchaConfig { enabled: true, ttl_secs: 1800, secret: "test-secret".to_string() },
        honeypot: HoneypotConfig {
            enabled: true,
            trap_path_prefix: "/.well-known/l7w-trap".to_string(),
        },
        obfuscation: ObfuscationConfig { enabled: true },
        score_threshold: 600,
    }
}

#[test]
fn test_disabled_allows_all() {
    let mut config = test_config(AntiScrapingMode::Block);
    config.enabled = false;
    let mut scraper = AntiScraper::new(config);
    let result = scraper.check_request("1.2.3.4", "/", "GET", None, 1000);
    assert!(matches!(result, ScrapingCheckResult::Allow));
}

#[test]
fn test_trap_request_detected() {
    let mut scraper = AntiScraper::new(test_config(AntiScrapingMode::Block));
    let result = scraper.check_request("1.2.3.4", "/.well-known/l7w-trap/abc123", "GET", None, 0);
    assert!(matches!(result, ScrapingCheckResult::TrapTriggered));
}

#[test]
fn test_normal_request_allowed() {
    let mut scraper = AntiScraper::new(test_config(AntiScrapingMode::Block));
    let result = scraper.check_request("1.2.3.4", "/api/data", "GET", None, 0);
    assert!(matches!(result, ScrapingCheckResult::Allow));
}

#[test]
fn test_high_bot_score_blocks() {
    let mut scraper = AntiScraper::new(test_config(AntiScrapingMode::Block));
    // High bot score (1.0) contributes 0.3 to scraping score
    // We need trap triggered or high request rate to exceed threshold
    let result = scraper.check_request("1.2.3.4", "/.well-known/l7w-trap/x", "GET", None, 0);
    assert!(matches!(result, ScrapingCheckResult::TrapTriggered));
    // Now subsequent requests from this IP should be blocked
    let result = scraper.check_request("1.2.3.4", "/page", "GET", None, 0);
    assert!(matches!(result, ScrapingCheckResult::Block));
}

#[test]
fn test_challenge_mode_issues_captcha() {
    let mut scraper = AntiScraper::new(test_config(AntiScrapingMode::Challenge));
    // Trigger trap first
    scraper.check_request("1.2.3.4", "/.well-known/l7w-trap/x", "GET", None, 0);
    let result = scraper.check_request("1.2.3.4", "/page", "GET", None, 0);
    assert!(matches!(result, ScrapingCheckResult::Challenge(_)));
}

#[test]
fn test_detect_mode_returns_score() {
    let mut scraper = AntiScraper::new(test_config(AntiScrapingMode::Detect));
    let result = scraper.check_request("1.2.3.4", "/page", "GET", None, 500);
    assert!(matches!(result, ScrapingCheckResult::Detect { .. }));
}

#[test]
fn test_process_response_html() {
    let scraper = AntiScraper::new(test_config(AntiScrapingMode::Block));
    let body = b"<html><body><p>Hello</p></body></html>";
    let result = scraper.process_response("1.2.3.4", Some("text/html"), body);
    assert!(result.is_some());
    let result_bytes = result.unwrap();
    let result_str = std::str::from_utf8(&result_bytes).unwrap();
    assert!(result_str.contains("l7w-trap"));
}

#[test]
fn test_process_response_non_html_skipped() {
    let scraper = AntiScraper::new(test_config(AntiScrapingMode::Block));
    let body = b"{'key': 'value'}";
    let result = scraper.process_response("1.2.3.4", Some("application/json"), body);
    assert!(result.is_none());
}

#[test]
fn test_process_response_disabled() {
    let mut config = test_config(AntiScrapingMode::Block);
    config.enabled = false;
    let scraper = AntiScraper::new(config);
    let body = b"<html><body><p>Hello</p></body></html>";
    let result = scraper.process_response("1.2.3.4", Some("text/html"), body);
    assert!(result.is_none());
}

#[test]
fn test_session_tracking() {
    let mut scraper = AntiScraper::new(test_config(AntiScrapingMode::Detect));
    assert_eq!(scraper.session_count(), 0);
    scraper.check_request("1.2.3.4", "/page1", "GET", None, 0);
    assert_eq!(scraper.session_count(), 1);
    scraper.check_request("5.6.7.8", "/page1", "GET", None, 0);
    assert_eq!(scraper.session_count(), 2);
}

#[test]
fn test_cleanup_sessions() {
    let mut scraper = AntiScraper::new(test_config(AntiScrapingMode::Detect));
    scraper.check_request("1.2.3.4", "/page", "GET", None, 0);
    assert_eq!(scraper.session_count(), 1);
    // Cleanup with zero duration should remove all
    scraper.cleanup_sessions(0);
    assert_eq!(scraper.session_count(), 0);
}

#[test]
fn test_flagged_scraper_count() {
    let mut scraper = AntiScraper::new(test_config(AntiScrapingMode::Detect));
    // Trigger trap for one IP
    scraper.check_request("1.2.3.4", "/.well-known/l7w-trap/x", "GET", None, 0);
    // Normal request for another IP
    scraper.check_request("5.6.7.8", "/page", "GET", None, 0);
    assert_eq!(scraper.flagged_scraper_count(), 1);
}

#[test]
fn verdict_table() {
    // At the threshold.
    assert_eq!(decide(AntiScrapingMode::Block, true, 600, 600, false), ScrapingVerdict::Block);
    assert_eq!(decide(AntiScrapingMode::Block, true, 600, 600, true), ScrapingVerdict::Block);
    assert_eq!(decide(AntiScrapingMode::Challenge, true, 600, 600, true), ScrapingVerdict::Allow);
    assert_eq!(decide(AntiScrapingMode::Challenge, true, 600, 1000, false), ScrapingVerdict::Challenge);
    assert_eq!(decide(AntiScrapingMode::Challenge, false, 600, 1000, false), ScrapingVerdict::Block);
    assert_eq!(decide(AntiScrapingMode::Detect, true, 600, 700, false), ScrapingVerdict::Detect);
    // Below the threshold.
    assert_eq!(decide(AntiScrapingMode::Block, true, 600, 599, false), ScrapingVerdict::Allow);
    assert_eq!(decide(AntiScrapingMode::Challenge, true, 600, 0, false), ScrapingVerdict::Allow);
    assert_eq!(decide(AntiScrapingMode::Detect, true, 600, 0, false), ScrapingVerdict::Detect);
}

#[test]
fn honeypot_loop_with_explicit_clocks() {
    let mut scraper = AntiScraper::new(test_config(AntiScrapingMode::Block));
    let (v, score) = scraper.assess_at("9.9.9.9", "/.well-known/l7w-trap/abcdef012345", None, 0, 100, 0);
    assert_eq!(v, ScrapingVerdict::TrapTriggered);
    assert_eq!(score, 1000);
    // Every later request of the client has the full score and is refused.
    for i in 1..20u64 {
        let (v, score) =
            scraper.assess_at("9.9.9.9", "/anything", None, 0, 100 + i, i * 3_600_000_000_000);
        assert_eq!((v, score), (ScrapingVerdict::Block, 1000));
    }
    // Another client is not affected.
    let (v, score) = scraper.assess_at("9.9.9.8", "/anything", None, 0, 100, 0);
    assert_eq!((v, score), (ScrapingVerdict::Allow, 0));
}

#[test]
fn valid_captcha_cookie_lets_a_challenged_client_pass() {
    let mut scraper = AntiScraper::new(test_config(AntiScrapingMode::Challenge));
    scraper.assess_at("9.9.9.9", "/.well-known/l7w-trap/x", None, 0, 100, 0);
    let (v, _) = scraper.assess_at("9.9.9.9", "/page", None, 0, 101, 1);
    assert_eq!(v, ScrapingVerdict::Challenge);
    let token = issue_token("9.9.9.9", "test-secret", 101, 42);
    let header = format!("a=b; __l7w_captcha={}%3A42", token.replace(':', "%3A"));
    let (v, score) = scraper.assess_at("9.9.9.9", "/page", Some(&header), 0, 102, 10_000_000_000);
    // 1.0 for the trap, less 0.5 for the CAPTCHA: below the threshold of 0.6.
    assert_eq!((v, score), (ScrapingVerdict::Allow, 500));
    // The cookie of another client does not count.
    scraper.assess_at("8.8.8.8", "/.well-known/l7w-trap/x", None, 0, 100, 0);
    let (v, score) = scraper.assess_at("8.8.8.8", "/page", Some(&header), 0, 102, 10_000_000_000);
    assert_eq!((v, score), (ScrapingVerdict::Challenge, 1000));
}

#[test]
fn challenge_page_is_the_rendered_captcha() {
    let mut scraper = AntiScraper::new(test_config(AntiScrapingMode::Challenge));
    let draw = draw_captcha();
    scraper.check_request_at("9.9.9.9", "/.well-known/l7w-trap/x", "GET", None, 0, 100, 0, &draw);
    let r = scraper.check_request_at("9.9.9.9", "/page", "GET", None, 0, 100, 1, &draw);
    match r {
        ScrapingCheckResult::Challenge(html) => {
            assert_eq!(html, scraper.captcha_page_at("9.9.9.9", "/page", 100, &draw));
            let token = issue_token("9.9.9.9", "test-secret", 100, (draw.a + draw.b) as u64);
            assert!(html.contains(&token));
        }
        other => panic!("expected a challenge, got {:?}", other),
    }
}

#[test]
fn rewriting_puts_in_trap_then_watermark() {
    let scraper = AntiScraper::new(test_config(AntiScrapingMode::Block));
    let body = b"<html><body><p>Hello</p></body></html>";
    assert_eq!(body.len(), 38);
    let out = scraper.process_response("1.2.3.4", Some("text/html; charset=utf-8"), body).unwrap();
    let text = String::from_utf8(out).unwrap();
    let trap = generate_trap_html("/.well-known/l7w-trap", "1.2.3.4", "test-secret");
    let visible: String = text.chars().filter(|&c| c != ZWC_ZERO && c != ZWC_ONE).collect();
    assert_eq!(visible, format!("<html><body><p>Hello</p>{trap}</body></html>"));
    // 32 marks between <p> and Hello.
    let after_p = text.split("<p>").nth(1).unwrap();
    let marks: String = after_p.chars().take_while(|&c| c == ZWC_ZERO || c == ZWC_ONE).collect();
    assert_eq!(marks.chars().count(), 32);
    assert!(after_p[marks.len()..].starts_with("Hello"));
    assert_eq!(extract_watermark(&text).unwrap(), sha256_hex_str("1.2.3.4")[..8]);
}

#[test]
fn large_bodies_pass_through() {
    let scraper = AntiScraper::new(test_config(AntiScrapingMode::Block));
    let mut body = b"<html><body><p>Hello</p>".to_vec();
    body.resize(2 * 1024 * 1024 - 14, b' ');
    body.extend_from_slice(b"</body></html>");
    assert_eq!(body.len(), 2 * 1024 * 1024);
    assert!(scraper.process_response("1.2.3.4", Some("text/html"), &body).is_some());
    body.insert(30, b' ');
    assert_eq!(body.len(), 2 * 1024 * 1024 + 1);
    assert!(scraper.process_response("1.2.3.4", Some("text/html"), &body).is_none());
}

#[test]
fn rewriting_needs_html_and_a_place() {
    let scraper = AntiScraper::new(test_config(AntiScrapingMode::Block));
    assert!(scraper.process_response("1.2.3.4", None, b"<p>x</p></body>").is_none());
    assert!(scraper.process_response("1.2.3.4", Some("text/plain"), b"<p>x</p></body>").is_none());
    // No </body> and no text node.
    assert!(scraper.process_response("1.2.3.4", Some("text/html"), b"<br><br>").is_none());
    // Only the watermark applies.
    let out = scraper.process_response("1.2.3.4", Some("text/html"), b"<p>x</p>").unwrap();
    assert_eq!(
        String::from_utf8(out).unwrap().chars().filter(|&c| c != ZWC_ZERO && c != ZWC_ONE).collect::<String>(),
        "<p>x</p>"
    );
    // Only the trap applies when the watermark is off.
    let mut config = test_config(AntiScrapingMode::Block);
    config.obfuscation.enabled = false;
    let scraper = AntiScraper::new(config);
    let out = scraper.process_response("1.2.3.4", Some("text/html"), b"<p>x</p></body>").unwrap();
    let trap = generate_trap_html("/.well-known/l7w-trap", "1.2.3.4", "test-secret");
    assert_eq!(String::from_utf8(out).unwrap(), format!("<p>x</p>{trap}</body>"));
}

#[test]
fn cleanup_keeps_fresh_sessions() {
    let mut scraper = AntiScraper::new(test_config(AntiScrapingMode::Detect));
    scraper.assess_at("old", "/", None, 0, 0, 1_000);
    scraper.assess_at("new", "/", None, 0, 0, 9_000);
    scraper.cleanup_sessions_at(5_000, 10_000);
    assert_eq!(scraper.session_count(), 1);
    // The one that stayed is "new": asking again does not add a session.
    scraper.assess_at("new", "/", None, 0, 0, 10_000);
    assert_eq!(scraper.session_count(), 1);
    scraper.assess_at("old", "/", None, 0, 0, 10_000);
    assert_eq!(scraper.session_count(), 2);
    // Both were seen at this very moment: an age of 0.
    scraper.cleanup_sessions_at(1, 10_000);
    assert_eq!(scraper.session_count(), 2);
    scraper.cleanup_sessions_at(0, 10_000);
    assert_eq!(scraper.session_count(), 0);
}
