use layer7waf::digest::sha256_hex_str;
use layer7waf::obfuscation::{
    extract_watermark, generate_watermark, inject_marks, inject_zero_width_chars, ZWC_ONE, ZWC_ZERO,
};

fn watermark_text(ip: &str) -> String {
    generate_watermark(ip).into_iter().collect()
}

#[test]
fn test_generate_watermark_consistent() {
    let wm1 = watermark_text("1.2.3.4");
    let wm2 = watermark_text("1.2.3.4");
    assert_eq!(wm1, wm2);
    assert_eq!(wm1.chars().count(), 32); // 32 zero-width chars
}

#[test]
fn test_generate_watermark_different_ips() {
    let wm1 = watermark_text("1.2.3.4");
    let wm2 = watermark_text("5.6.7.8");
    assert_ne!(wm1, wm2);
}

#[test]
fn test_extract_watermark_roundtrip() {
    let wm = watermark_text("10.0.0.1");
    let extracted = extract_watermark(&wm).unwrap();
    // Verify it matches the first 4 bytes of the SHA256 hash
    let expected = sha256_hex_str("10.0.0.1")[..8].to_string();
    assert_eq!(extracted, expected);
}

#[test]
fn test_inject_zero_width_chars() {
    let body = b"<html><body><p>Hello world</p></body></html>";
    let result = inject_zero_width_chars(body, "1.2.3.4");
    assert!(result.is_some());
    let result_bytes = result.unwrap();
    let result_str = std::str::from_utf8(&result_bytes).unwrap();
    // The visible text should still be the same when zero-width chars are stripped
    let visible: String = result_str.chars().filter(|&c| c != ZWC_ZERO && c != ZWC_ONE).collect();
    assert_eq!(visible, "<html><body><p>Hello world</p></body></html>");
}

#[test]
fn test_inject_no_text_nodes() {
    let body = b"<html><body><br><br></body></html>";
    let result = inject_zero_width_chars(body, "1.2.3.4");
    assert!(result.is_none());
}

#[test]
fn test_extract_watermark_too_short() {
    let text = "\u{200B}\u{200C}";
    assert!(extract_watermark(text).is_none());
}

#[test]
fn watermark_bits_are_those_of_the_digest() {
    let hex = sha256_hex_str("203.0.113.9");
    let wm = generate_watermark("203.0.113.9");
    let mut expected = Vec::new();
    for i in 0..4 {
        let byte = u8::from_str_radix(&hex[2 * i..2 * i + 2], 16).unwrap();
        for bit in (0..8).rev() {
            expected.push(if (byte >> bit) & 1 == 1 { ZWC_ONE } else { ZWC_ZERO });
        }
    }
    assert_eq!(wm, expected);
}

#[test]
fn injection_round_trips_through_extraction() {
    for ip in ["1.2.3.4", "10.0.0.1", "2001:db8::1", ""] {
        let body = "<html><body><p>Hello</p><p>again</p></body></html>";
        let out = inject_zero_width_chars(body.as_bytes(), ip).unwrap();
        let text = String::from_utf8(out).unwrap();
        assert_eq!(extract_watermark(&text).unwrap(), sha256_hex_str(ip)[..8]);
    }
}

#[test]
fn at_most_five_injections() {
    let body = "<p>a</p>".repeat(9);
    let out = inject_zero_width_chars(body.as_bytes(), "1.2.3.4").unwrap();
    let text = String::from_utf8(out).unwrap();
    let marks = text.chars().filter(|&c| c == ZWC_ZERO || c == ZWC_ONE).count();
    assert_eq!(marks, 5 * 32);
    // The first five text nodes carry the mark, the sixth does not.
    let wm = watermark_text("1.2.3.4");
    let marked = format!("<p>{wm}a</p>");
    assert_eq!(text, format!("{}{}", marked.repeat(5), "<p>a</p>".repeat(4)));
}

#[test]
fn sites_are_after_a_closing_bracket_before_text() {
    let mark: Vec<char> = "##".chars().collect();
    let run = |s: &str| -> Option<String> {
        let chars: Vec<char> = s.chars().collect();
        inject_marks(&chars, &mark).map(|v| v.into_iter().collect())
    };
    assert_eq!(run("<p>x"), Some("<p>##x".to_string()));
    assert_eq!(run("<p><b>"), None);
    assert_eq!(run("<p> x"), None);
    assert_eq!(run("<p>\nx"), None);
    assert_eq!(run("<p>\u{00A0}x"), None);
    assert_eq!(run("<p>"), None);
    assert_eq!(run(""), None);
    assert_eq!(run("a>b>c"), Some("a>##b>##c".to_string()));
    assert_eq!(run(">>x"), Some(">##>##x".to_string()));
}

#[test]
fn body_that_is_not_utf8_is_left_alone() {
    assert!(inject_zero_width_chars(&[b'<', b'p', b'>', 0xff, b'x'], "1.2.3.4").is_none());
    assert!(inject_zero_width_chars(&[b'>', 0xC3], "1.2.3.4").is_none());
    let out = inject_zero_width_chars("<p>é</p>".as_bytes(), "1.2.3.4").unwrap();
    let text = String::from_utf8(out).unwrap();
    assert!(text.starts_with("<p>"));
    assert!(text.ends_with("é</p>"));
}

#[test]
fn extraction_reads_the_first_thirty_two_marks() {
    // 0x00 0xff 0xa5 0x01, with other characters in between and more marks after.
    let mut text = String::from("ab");
    let bits = "00000000111111111010010100000001";
    for (i, b) in bits.chars().enumerate() {
        text.push(if b == '1' { ZWC_ONE } else { ZWC_ZERO });
        if i % 5 == 0 {
            text.push('x');
        }
    }
    text.push(ZWC_ONE);
    text.push('y');
    text.push(ZWC_ONE);
    assert_eq!(extract_watermark(&text), Some("00ffa501".to_string()));
    let short: String = bits.chars().take(31).map(|b| if b == '1' { ZWC_ONE } else { ZWC_ZERO }).collect();
    assert_eq!(extract_watermark(&short), None);
    assert_eq!(extract_watermark(""), None);
}
