use layer7waf::clock::unix_now_secs;
use layer7waf::digest::compute_hmac;
use layer7waf::js_challenge::{
    extract_challenge_cookie, extract_cookie, generate_challenge, generate_challenge_at,
    sign_challenge, urldecode, verify_challenge_cookie, verify_challenge_cookie_at,
};

#[test]
fn test_generate_challenge_contains_html() {
    let html = generate_challenge("192.168.1.1", 16, "test-secret");
    assert!(html.contains("<!DOCTYPE html>"));
    assert!(html.contains("__l7w_bc"));
    assert!(html.contains("crypto.subtle.digest"));
}

#[test]
fn test_verify_challenge_cookie_valid() {
    let secret = "test-secret-key";
    let ip = "10.0.0.1";
    let now = unix_now_secs();

    // Build a valid cookie
    let challenge_data = format!("{}:{}:verified", ip, now);
    let hmac = compute_hmac(secret, &challenge_data);
    let cookie = format!("{}:{}:somehash:{}", ip, now, hmac);

    assert!(verify_challenge_cookie(&cookie, ip, secret, 3600));
}

#[test]
fn test_verify_challenge_cookie_wrong_ip() {
    let secret = "test-secret-key";
    let now = unix_now_secs();

    let challenge_data = format!("10.0.0.1:{}:verified", now);
    let hmac = compute_hmac(secret, &challenge_data);
    let cookie = format!("10.0.0.1:{}:somehash:{}", now, hmac);

    // Different IP should fail
    assert!(!verify_challenge_cookie(&cookie, "10.0.0.2", secret, 3600));
}

#[test]
fn test_verify_challenge_cookie_expired() {
    let secret = "test-secret-key";
    let ip = "10.0.0.1";
    // Timestamp from 2 hours ago
    let old_ts = unix_now_secs() - 7200;

    let challenge_data = format!("{}:{}:verified", ip, old_ts);
    let hmac = compute_hmac(secret, &challenge_data);
    let cookie = format!("{}:{}:somehash:{}", ip, old_ts, hmac);

    // TTL of 3600 should reject a 7200-second-old cookie
    assert!(!verify_challenge_cookie(&cookie, ip, secret, 3600));
}

#[test]
fn test_extract_challenge_cookie() {
    assert_eq!(
        extract_challenge_cookie("session=abc; __l7w_bc=10.0.0.1%3A123%3Ahash%3Ahmac; other=x"),
        Some("10.0.0.1:123:hash:hmac".to_string())
    );
    assert_eq!(extract_challenge_cookie("session=abc"), None);
}

#[test]
fn challenge_page_is_exact() {
    let html = generate_challenge_at("5.6.7.8", 16, "s3cret", 1_700_000_000);
    let tag = compute_hmac("s3cret", "5.6.7.8:1700000000:verified");
    assert_eq!(sign_challenge("5.6.7.8", "s3cret", "1700000000"), tag);
    assert!(html.contains(&format!(
        "  const challenge = \"5.6.7.8:1700000000\";\n  const difficulty = 16;\n  const hmac = \"{tag}\";\n  const ip = \"5.6.7.8\";\n  const ts = \"1700000000\";\n"
    )));
    assert!(html.starts_with("<!DOCTYPE html>\n<html>\n<head>\n<title>Checking your browser...</title>"));
    assert!(html.ends_with("})();\n</script>\n</body>\n</html>"));
    assert!(html.contains(
        "document.cookie = '__l7w_bc=' + encodeURIComponent(cookieValue) + ';path=/;max-age=3600;SameSite=Lax';"
    ));
    assert!(html.contains("body { font-family: -apple-system"));
    assert_eq!(html.matches("5.6.7.8").count(), 2);
}

#[test]
fn solved_challenge_round_trips() {
    let ip = "5.6.7.8";
    let secret = "s3cret";
    let ts = 1_700_000_000u64;
    let tag = sign_challenge(ip, secret, &ts.to_string());
    for pow in ["0000abcd", "", "ffff"] {
        let cookie = format!("{ip}:{ts}:{pow}:{tag}");
        assert!(verify_challenge_cookie_at(&cookie, ip, secret, 3600, ts));
        assert!(verify_challenge_cookie_at(&cookie, ip, secret, 3600, ts + 3600));
        assert!(!verify_challenge_cookie_at(&cookie, ip, secret, 3600, ts + 3601));
        assert!(verify_challenge_cookie_at(&cookie, ip, secret, 3600, ts - 5));
        assert!(!verify_challenge_cookie_at(&cookie, "5.6.7.9", secret, 3600, ts));
        assert!(!verify_challenge_cookie_at(&cookie, ip, "other", 3600, ts));
    }
}

#[test]
fn tampered_challenge_cookie_is_refused() {
    let ip = "5.6.7.8";
    let secret = "s3cret";
    let ts = 1_700_000_000u64;
    let tag = sign_challenge(ip, secret, &ts.to_string());
    let at = |c: &str| verify_challenge_cookie_at(c, ip, secret, 3600, ts);
    assert!(at(&format!("{ip}:{ts}:h:{tag}")));
    assert!(!at(&format!("5.6.7.7:{ts}:h:{tag}")));
    assert!(!at(&format!("{ip}:{}:h:{tag}", ts + 1)));
    assert!(!at(&format!("{ip}:+{ts}:h:{tag}")));
    let mut bad = tag.clone().into_bytes();
    bad[10] = if bad[10] == b'0' { b'1' } else { b'0' };
    assert!(!at(&format!("{ip}:{ts}:h:{}", String::from_utf8(bad).unwrap())));
    assert!(!at(&format!("{ip}:{ts}:h:{}", &tag[..63])));
    // Three or five fields.
    assert!(!at(&format!("{ip}:{ts}:{tag}")));
    assert!(!at(&format!("{ip}:{ts}:h:{tag}:x")));
    assert!(!at(&format!("{ip}:{ts}:h:x:{tag}")));
    assert!(!at(""));
    assert!(!at(":::"));
    // A timestamp that is no number, or too large.
    assert!(!at(&format!("{ip}:12a:h:{tag}")));
    assert!(!at(&format!("{ip}::h:{tag}")));
    assert!(!at(&format!("{ip}:18446744073709551616:h:{tag}")));
}

#[test]
fn timestamp_with_a_plus_sign_is_a_number() {
    // The tag signs the timestamp as it is written.
    let tag = sign_challenge("1.1.1.1", "k", "+50");
    assert!(verify_challenge_cookie_at(&format!("1.1.1.1:+50:h:{tag}"), "1.1.1.1", "k", 10, 55));
    assert!(!verify_challenge_cookie_at(&format!("1.1.1.1:+50:h:{tag}"), "1.1.1.1", "k", 10, 61));
}

#[test]
fn url_decoding() {
    assert_eq!(urldecode("a%3Ab"), "a:b");
    assert_eq!(urldecode("a%3ab%3A"), "a:b:");
    assert_eq!(urldecode("a+b"), "a b");
    assert_eq!(urldecode("%41%42c"), "ABc");
    assert_eq!(urldecode("100%"), "100%");
    assert_eq!(urldecode("%4"), "%4");
    assert_eq!(urldecode("%zz1"), "%zz1");
    assert_eq!(urldecode("%%41"), "%%41");
    assert_eq!(urldecode("%+a"), "%+a");
    assert_eq!(urldecode("%e9"), "\u{e9}");
    assert_eq!(urldecode("%00"), "\u{0}");
    assert_eq!(urldecode(""), "");
    assert_eq!(urldecode("é%20ü"), "é ü");
}

#[test]
fn cookie_extraction() {
    assert_eq!(extract_cookie("a=1;b=2", "b="), Some("2".to_string()));
    assert_eq!(extract_cookie("a=1;  b=2  ", "b="), Some("2".to_string()));
    assert_eq!(extract_cookie("b=1; b=2", "b="), Some("1".to_string()));
    assert_eq!(extract_cookie("ab=1", "b="), None);
    assert_eq!(extract_cookie("", "b="), None);
    assert_eq!(extract_cookie("b=", "b="), Some("".to_string()));
    assert_eq!(extract_cookie("x=1; __l7w_bc=a+b%3a", "__l7w_bc="), Some("a b:".to_string()));
    assert_eq!(extract_challenge_cookie("__l7w_bc=v"), Some("v".to_string()));
    assert_eq!(extract_challenge_cookie("__l7w_captcha=v"), None);
}

#[test]
fn one_changed_character_outside_the_hash_is_refused() {
    let ip = "5.6.7.8";
    let secret = "s3cret";
    let ts = 1_700_000_000u64;
    let tag = sign_challenge(ip, secret, &ts.to_string());
    let good: Vec<char> = format!("{ip}:{ts}:0000abcd:{tag}").chars().collect();
    let text: String = good.iter().collect();
    assert!(verify_challenge_cookie_at(&text, ip, secret, 3600, ts));
    let hash_from = ip.len() + 1 + ts.to_string().len() + 1;
    let hash_to = hash_from + "0000abcd".len();
    for i in 0..good.len() {
        for c in [':', 'x', '0'] {
            if good[i] == c {
                continue;
            }
            let mut altered = good.clone();
            altered[i] = c;
            let text: String = altered.iter().collect();
            let inside_hash = hash_from <= i && i < hash_to && c != ':';
            assert_eq!(
                verify_challenge_cookie_at(&text, ip, secret, 3600, ts),
                inside_hash,
                "position {i}, character {c}"
            );
        }
    }
}
