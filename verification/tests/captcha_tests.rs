use layer7waf::captcha::{
    draw_captcha, extract_captcha_cookie, generate_captcha_page, issue_token,
    render_captcha_page, verify_captcha_cookie, verify_captcha_cookie_at, CaptchaDraw, NoiseLine,
};
use layer7waf::clock::unix_now_secs;
use layer7waf::digest::{compute_hmac, sha256_hex_str};

fn signed_cookie(ip: &str, secret: &str, ts: u64, answer: &str) -> String {
    let answer_hash = sha256_hex_str(answer);
    let mac_input = format!("{ip}:{ts}:{answer_hash}");
    let hmac_hex = compute_hmac(secret, &mac_input);
    format!("{ip}:{ts}:{answer_hash}:{hmac_hex}:{answer}")
}

#[test]
fn test_generate_captcha_page_contains_svg() {
    let html = generate_captcha_page("1.2.3.4", "test-secret", "/test");
    assert!(html.contains("<svg"));
    assert!(html.contains("__l7w_captcha_token"));
    assert!(html.contains("Verification Required"));
}

#[test]
fn test_extract_captcha_cookie() {
    let cookie = "session=abc; __l7w_captcha=some%3Avalue; other=123";
    let result = extract_captcha_cookie(cookie);
    assert_eq!(result, Some("some:value".to_string()));
}

#[test]
fn test_extract_captcha_cookie_missing() {
    let cookie = "session=abc; other=123";
    assert!(extract_captcha_cookie(cookie).is_none());
}

#[test]
fn test_verify_captcha_invalid_parts() {
    assert!(!verify_captcha_cookie("a:b:c", "1.2.3.4", "secret", 3600));
}

#[test]
fn test_verify_captcha_wrong_ip() {
    let ts = unix_now_secs();
    let cookie = signed_cookie("1.2.3.4", "secret", ts, "42");
    assert!(!verify_captcha_cookie(&cookie, "5.6.7.8", "secret", 3600));
}

#[test]
fn test_verify_captcha_valid() {
    let ip = "10.0.0.1";
    let secret = "test-secret";
    let ts = unix_now_secs();
    let cookie = signed_cookie(ip, secret, ts, "42");
    assert!(verify_captcha_cookie(&cookie, ip, secret, 3600));
}

#[test]
fn captcha_cookie_expires_after_ttl() {
    let cookie = signed_cookie("10.0.0.1", "s", 1_000, "42");
    assert!(verify_captcha_cookie_at(&cookie, "10.0.0.1", "s", 1800, 1_000));
    assert!(verify_captcha_cookie_at(&cookie, "10.0.0.1", "s", 1800, 2_800));
    assert!(!verify_captcha_cookie_at(&cookie, "10.0.0.1", "s", 1800, 2_801));
    // A stamp from the future counts as new.
    assert!(verify_captcha_cookie_at(&cookie, "10.0.0.1", "s", 1800, 10));
}

#[test]
fn captcha_cookie_rejects_tampering() {
    let ip = "10.0.0.1";
    let good = signed_cookie(ip, "s", 1_000, "42");
    assert!(verify_captcha_cookie_at(&good, ip, "s", 1800, 1_000));

    let parts: Vec<&str> = good.split(':').collect();
    // Each field in turn with one character changed.
    for field in 0..5 {
        let mut altered: Vec<String> = parts.iter().map(|p| p.to_string()).collect();
        let mut chars: Vec<char> = altered[field].chars().collect();
        chars[0] = if chars[0] == '1' { '2' } else { '1' };
        altered[field] = chars.into_iter().collect();
        let cookie = altered.join(":");
        assert!(!verify_captcha_cookie_at(&cookie, ip, "s", 1800, 1_000), "field {field}");
    }
    // Another secret.
    assert!(!verify_captcha_cookie_at(&good, ip, "other", 1800, 1_000));
    // A wrong answer.
    let wrong = format!("{}:{}:{}:{}:43", parts[0], parts[1], parts[2], parts[3]);
    assert!(!verify_captcha_cookie_at(&wrong, ip, "s", 1800, 1_000));
    // A timestamp that is no number.
    assert!(!verify_captcha_cookie_at("10.0.0.1:abc:c:d:e", ip, "s", 1800, 1_000));
    // Six fields.
    assert!(!verify_captcha_cookie_at(&format!("{good}:x"), ip, "s", 1800, 1_000));
}

#[test]
fn issued_token_with_right_answer_round_trips() {
    let ip = "192.0.2.7";
    let secret = "round-trip";
    for answer in [4u64, 57, 98] {
        let token = issue_token(ip, secret, 5_000, answer);
        let cookie = format!("{token}:{answer}");
        assert!(verify_captcha_cookie_at(&cookie, ip, secret, 1800, 5_100));
        let wrong = format!("{token}:{}", answer + 1);
        assert!(!verify_captcha_cookie_at(&wrong, ip, secret, 1800, 5_100));
    }
}

#[test]
fn issued_token_has_the_documented_shape() {
    let token = issue_token("1.2.3.4", "k", 77, 12);
    let parts: Vec<&str> = token.split(':').collect();
    assert_eq!(parts.len(), 4);
    assert_eq!(parts[0], "1.2.3.4");
    assert_eq!(parts[1], "77");
    assert_eq!(parts[2], sha256_hex_str("12"));
    assert_eq!(parts[3], compute_hmac("k", &format!("1.2.3.4:77:{}", sha256_hex_str("12"))));
}

#[test]
fn drawn_numbers_lie_in_their_ranges() {
    for _ in 0..200 {
        let d = draw_captcha();
        assert!((2..50).contains(&d.a));
        assert!((2..50).contains(&d.b));
        assert_eq!(d.noise.len(), 5);
        for l in &d.noise {
            assert!(l.x1 < 200 && l.x2 < 200 && l.y1 < 60 && l.y2 < 60);
            assert!((100..200).contains(&l.red));
            assert!((100..200).contains(&l.green));
            assert!((100..200).contains(&l.blue));
        }
        assert!((15..35).contains(&d.a_x));
        assert!((-15..15).contains(&d.a_rot));
        assert!((70..90).contains(&d.plus_x));
        assert!((115..140).contains(&d.b_x));
        assert!((-15..15).contains(&d.b_rot));
        assert!((160..180).contains(&d.eq_x));
    }
}

#[test]
fn rendered_page_is_exact() {
    let line = NoiseLine { x1: 1, y1: 2, x2: 3, y2: 4, red: 100, green: 150, blue: 199 };
    let draw = CaptchaDraw {
        a: 7,
        b: 35,
        noise: vec![line; 5],
        a_x: 20,
        a_rot: -5,
        plus_x: 80,
        b_x: 120,
        b_rot: 14,
        eq_x: 170,
    };
    let html = render_captcha_page("1.2.3.4", "secret", "/back", 1_000, &draw);
    let noise = r#"<line x1="1" y1="2" x2="3" y2="4" stroke="rgb(100,150,199)" stroke-width="1"/>"#;
    assert!(html.contains(&noise.repeat(5)));
    assert!(html.contains(
        r##"<text x="20" y="40" font-size="28" font-family="monospace" fill="#333" transform="rotate(-5,20,40)">7</text><text x="80" y="40" font-size="28" font-family="monospace" fill="#333">+</text><text x="120" y="40" font-size="28" font-family="monospace" fill="#333" transform="rotate(14,120,40)">35</text><text x="170" y="40" font-size="28" font-family="monospace" fill="#333">= ?</text>"##
    ));
    let token = issue_token("1.2.3.4", "secret", 1_000, 42);
    assert!(html.contains(&format!(
        "<form method=\"POST\" action=\"/back\" id=\"captcha-form\">\n<input type=\"hidden\" name=\"__l7w_captcha_token\" value=\"{token}\">\n<input type=\"hidden\" name=\"__l7w_captcha_path\" value=\"/back\">\n"
    )));
    assert!(html.starts_with("<!DOCTYPE html>\n<html lang=\"en\">"));
    assert!(html.ends_with("</div>\n</body>\n</html>"));
    assert!(html.contains("max-age=1800; SameSite=Strict"));
    // The right answer to the page verifies.
    assert!(verify_captcha_cookie_at(&format!("{token}:42"), "1.2.3.4", "secret", 1800, 1_001));
}

#[test]
fn one_changed_character_is_refused() {
    let ip = "10.0.0.1";
    let good: Vec<char> = signed_cookie(ip, "s", 1_000, "42").chars().collect();
    for i in 0..good.len() {
        for c in [':', 'x', '0'] {
            if good[i] == c {
                continue;
            }
            let mut altered = good.clone();
            altered[i] = c;
            let text: String = altered.iter().collect();
            assert!(
                !verify_captcha_cookie_at(&text, ip, "s", 1800, 1_000),
                "position {i}, character {c}"
            );
        }
    }
}
