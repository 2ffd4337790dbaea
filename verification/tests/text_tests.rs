use layer7waf::digest::{compute_hmac, constant_time_eq, sha256_hex, sha256_hex_str};
use layer7waf::text::{
    chars_of, contains, contains_str, copy_range, decimal_of, eq_ignore_ascii_case, find,
    is_whitespace, lowercase_chars, matches_at, parse_u64, push_all, push_str, signed_decimal_of,
    split_on, starts_with, string_of, to_ascii_lower, trim,
};

fn c(s: &str) -> Vec<char> {
    s.chars().collect()
}

fn s(v: Vec<char>) -> String {
    v.into_iter().collect()
}

#[test]
fn white_space_is_that_of_std() {
    for u in 0..=0x10FFFFu32 {
        if let Some(ch) = char::from_u32(u) {
            assert_eq!(is_whitespace(ch), ch.is_whitespace(), "U+{u:04X}");
        }
    }
}

#[test]
fn ascii_lower_is_that_of_std() {
    for u in 0..=0x10FFFFu32 {
        if let Some(ch) = char::from_u32(u) {
            assert_eq!(to_ascii_lower(ch), ch.to_ascii_lowercase(), "U+{u:04X}");
        }
    }
    assert!(eq_ignore_ascii_case(&c("User-Agent"), &c("uSER-aGENT")));
    assert!(!eq_ignore_ascii_case(&c("User-Agent"), &c("User-Agents")));
    assert!(!eq_ignore_ascii_case(&c("é"), &c("É")));
    assert!(eq_ignore_ascii_case(&c(""), &c("")));
}

#[test]
fn conversions() {
    assert_eq!(s(chars_of("héllo")), "héllo");
    assert_eq!(string_of(&c("héllo")), "héllo");
    assert_eq!(s(lowercase_chars("HeLLo Ünï")), "hello ünï");
    assert_eq!(s(lowercase_chars("İ")), "i\u{307}");
    assert_eq!(s(copy_range(&c("abcdef"), 2, 4)), "cd");
    let mut v = c("ab");
    push_all(&mut v, &c("cd"));
    push_str(&mut v, "éf");
    assert_eq!(s(v), "abcdéf");
}

#[test]
fn searching() {
    assert!(matches_at(&c("abcabc"), &c("bc"), 1));
    assert!(!matches_at(&c("abcabc"), &c("bc"), 2));
    assert!(!matches_at(&c("abc"), &c("bc"), 2));
    assert!(matches_at(&c("abc"), &c(""), 3));
    assert!(!matches_at(&c("abc"), &c(""), 4));
    assert_eq!(find(&c("abcabc"), &c("bc")), Some(1));
    assert_eq!(find(&c("abcabc"), &c("cb")), None);
    assert_eq!(find(&c("abc"), &c("")), Some(0));
    assert_eq!(find(&c(""), &c("")), Some(0));
    assert_eq!(find(&c("ab"), &c("abc")), None);
    assert_eq!(find(&c("aab"), &c("ab")), Some(1));
    assert!(contains(&c("hello"), &c("llo")));
    assert!(!contains(&c("hello"), &c("lol")));
    assert!(contains_str(&c("hello"), "ell"));
    assert!(starts_with(&c("hello"), &c("he")));
    assert!(starts_with(&c("hello"), &c("")));
    assert!(!starts_with(&c("hello"), &c("el")));
    assert!(!starts_with(&c("he"), &c("hello")));
}

#[test]
fn trimming_and_splitting() {
    for t in ["", " ", "a", " a", "a ", " \t a b \r\n", "\u{a0}x\u{3000}", "  "] {
        assert_eq!(s(trim(&c(t))), t.trim(), "{t:?}");
    }
    for t in ["", ";", "a", "a;b", ";a;;b;", "a;b;c"] {
        let parts: Vec<String> = split_on(&c(t), ';').into_iter().map(s).collect();
        let expected: Vec<String> = t.split(';').map(|p| p.to_string()).collect();
        assert_eq!(parts, expected, "{t:?}");
    }
}

#[test]
fn numbers() {
    for t in [
        "0", "7", "42", "007", "+5", "+", "", "-1", "1a", " 1", "18446744073709551615",
        "18446744073709551616", "99999999999999999999999", "++1", "1+", "٣",
    ] {
        assert_eq!(parse_u64(&c(t)), t.parse::<u64>().ok(), "{t:?}");
    }
    for n in [0u64, 1, 9, 10, 99, 100, 12345, u64::MAX] {
        assert_eq!(s(decimal_of(n)), n.to_string());
        assert_eq!(parse_u64(&decimal_of(n)), Some(n));
    }
    for n in [0i32, 1, -1, 15, -15, i32::MAX, i32::MIN] {
        assert_eq!(s(signed_decimal_of(n)), n.to_string());
    }
}

#[test]
fn digests() {
    assert_eq!(
        sha256_hex(b"abc"),
        "ba7816bf8f01cfea414140de5dae2223b00361a396177a9cb410ff61f20015ad"
    );
    assert_eq!(sha256_hex_str("abc"), sha256_hex(b"abc"));
    assert_eq!(sha256_hex_str("é"), sha256_hex(&[0xc3, 0xa9]));
    // RFC 4231, test case 2.
    assert_eq!(
        compute_hmac("Jefe", "what do ya want for nothing?"),
        "5bdcc146bf60754e6a042426089575c75a003f089d2739839dec58b964ec3843"
    );
    assert_ne!(compute_hmac("Jefe", "a"), compute_hmac("a", "Jefe"));
    assert!(constant_time_eq(&c("abc"), &c("abc")));
    assert!(!constant_time_eq(&c("abc"), &c("abd")));
    assert!(!constant_time_eq(&c("abc"), &c("ab")));
    assert!(!constant_time_eq(&c("xbc"), &c("abc")));
    assert!(constant_time_eq(&c(""), &c("")));
    assert!(!constant_time_eq(&c("\u{10000}"), &c("\u{0}")));
}
