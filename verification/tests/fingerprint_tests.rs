use layer7waf::digest::sha256_hex_str;
use layer7waf::fingerprint::{
    compute_fingerprint, extract_ua_family, find_header, has_standard_accept,
};

#[test]
fn test_compute_fingerprint_basic() {
    let headers = vec![
        ("Host".into(), "example.com".into()),
        ("User-Agent".into(), "Mozilla/5.0 Chrome/120".into()),
        ("Accept".into(), "text/html".into()),
        ("Accept-Encoding".into(), "gzip, deflate".into()),
        ("Accept-Language".into(), "en-US".into()),
    ];
    let fp = compute_fingerprint(&headers, "GET");
    assert_eq!(fp.ua_family, "Chrome");
    assert!(!fp.header_order_hash.is_empty());
    assert!(!fp.accept_hash.is_empty());
}

#[test]
fn test_ua_family_extraction() {
    assert_eq!(extract_ua_family("curl/7.88.1"), "curl");
    assert_eq!(extract_ua_family("python-requests/2.31.0"), "python");
    assert_eq!(extract_ua_family("Scrapy/2.9.0"), "scrapy");
    assert_eq!(extract_ua_family("Googlebot/2.1"), "Googlebot");
    assert_eq!(extract_ua_family(""), "empty");
    assert_eq!(extract_ua_family("Mozilla/5.0 (compatible; Bingbot/2.0)"), "Bingbot");
}

#[test]
fn test_has_standard_accept() {
    let with_accept = vec![("Accept".into(), "text/html".into())];
    assert!(has_standard_accept(&with_accept));

    let wildcard = vec![("Accept".into(), "*/*".into())];
    assert!(!has_standard_accept(&wildcard));

    let empty: Vec<(String, String)> = vec![];
    assert!(!has_standard_accept(&empty));
}

#[test]
fn test_different_header_orders_produce_different_hashes() {
    let h1 = vec![("Host".into(), "a.com".into()), ("Accept".into(), "text/html".into())];
    let h2 = vec![("Accept".into(), "text/html".into()), ("Host".into(), "a.com".into())];
    let fp1 = compute_fingerprint(&h1, "GET");
    let fp2 = compute_fingerprint(&h2, "GET");
    assert_ne!(fp1.header_order_hash, fp2.header_order_hash);
}

#[test]
fn fingerprint_hashes_are_exact() {
    let headers: Vec<(String, String)> = vec![
        ("Host".into(), "example.com".into()),
        ("USER-AGENT".into(), "Mozilla/5.0 Firefox/1".into()),
        ("accept".into(), "text/html".into()),
        ("Accept-Language".into(), "en".into()),
        ("Accept".into(), "second".into()),
    ];
    let fp = compute_fingerprint(&headers, "POST");
    assert_eq!(
        fp.header_order_hash,
        sha256_hex_str("host,user-agent,accept,accept-language,accept")
    );
    assert_eq!(fp.accept_hash, sha256_hex_str("text/html||en"));
    assert_eq!(fp.ua_family, "Firefox");
    let none: Vec<(String, String)> = vec![];
    let fp = compute_fingerprint(&none, "GET");
    assert_eq!(fp.header_order_hash, sha256_hex_str(""));
    assert_eq!(fp.accept_hash, sha256_hex_str("||"));
    assert_eq!(fp.ua_family, "empty");
    assert_eq!(
        sha256_hex_str(""),
        "e3b0c44298fc1c149afbf4c8996fb92427ae41e4649b934ca495991b7852b855"
    );
}

#[test]
fn ua_family_rules_in_order() {
    assert_eq!(extract_ua_family("Mozilla/5.0 Chrome/120 Safari/537"), "Chrome");
    assert_eq!(extract_ua_family("Mozilla/5.0 Chromium/120 Chrome/120"), "other");
    assert_eq!(extract_ua_family("Mozilla/5.0 Chrome/120 Edg/120"), "Edge");
    assert_eq!(extract_ua_family("Mozilla/5.0 Firefox/120 Chrome"), "Chrome");
    assert_eq!(extract_ua_family("Mozilla/5.0 Firefox/120"), "Firefox");
    assert_eq!(extract_ua_family("Mozilla/5.0 Version/17 Safari/605"), "Safari");
    assert_eq!(extract_ua_family("Wget/1.21"), "wget");
    assert_eq!(extract_ua_family("python-urllib/3"), "python");
    assert_eq!(extract_ua_family("MyCrawler"), "bot-generic");
    assert_eq!(extract_ua_family("spider"), "bot-generic");
    assert_eq!(extract_ua_family("x"), "other");
    assert_eq!(extract_ua_family("CURL"), "curl");
}

#[test]
fn header_lookup_ignores_ascii_case_and_takes_the_first() {
    let headers: Vec<(String, String)> = vec![
        ("X-One".into(), "1".into()),
        ("cOOkie".into(), "a=b".into()),
        ("Cookie".into(), "c=d".into()),
    ];
    assert_eq!(find_header(&headers, "cookie").into_iter().collect::<String>(), "a=b");
    assert_eq!(find_header(&headers, "x-one").into_iter().collect::<String>(), "1");
    assert_eq!(find_header(&headers, "x-two").into_iter().collect::<String>(), "");
}

#[test]
fn standard_accept_looks_at_every_accept_header() {
    let h: Vec<(String, String)> =
        vec![("Accept".into(), "*/*".into()), ("ACCEPT".into(), "text/html".into())];
    assert!(has_standard_accept(&h));
    let h: Vec<(String, String)> = vec![("Accept".into(), "".into())];
    assert!(!has_standard_accept(&h));
    let h: Vec<(String, String)> = vec![("Accept-Encoding".into(), "gzip".into())];
    assert!(!has_standard_accept(&h));
    let h: Vec<(String, String)> = vec![("Accept".into(), "*/*;q=0.8".into())];
    assert!(has_standard_accept(&h));
}
