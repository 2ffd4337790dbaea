//! The fingerprint of a request: what its headers, and their order, tell of
//! the client that sent it.

use crate::digest::{sha256_hex_of, sha256_hex_str};
use crate::text::{
    chars_of, contains_str, eq_ignore_ascii_case, has_substring, lowercase, lowercase_chars,
    push_all, same_ignoring_ascii_case, string_of,
};
use vstd::prelude::*;

verus! {

broadcast use vstd::string::group_string_axioms;

/// The fingerprint of one request.
#[derive(Debug, Clone)]
pub struct HttpFingerprint {
    /// Hexadecimal SHA-256 of the lower-cased header names, joined by commas
    /// in the order they came in.
    pub header_order_hash: String,
    /// The family of the `User-Agent`, one of a closed set of words.
    pub ua_family: String,
    /// Hexadecimal SHA-256 of `Accept|Accept-Encoding|Accept-Language`.
    pub accept_hash: String,
}

/// The value of the first header called `name`, whatever the case of its
/// ASCII letters; empty where there is none.
pub open spec fn header_value(headers: Seq<(String, String)>, name: Seq<char>) -> Seq<char>
    decreases headers.len(),
{
    if headers.len() == 0 {
        Seq::<char>::empty()
    } else if same_ignoring_ascii_case(headers[0].0@, name) {
        headers[0].1@
    } else {
        header_value(headers.drop_first(), name)
    }
}

/// The lower-cased header names, joined by commas.
pub open spec fn joined_names(headers: Seq<(String, String)>) -> Seq<char>
    decreases headers.len(),
{
    if headers.len() == 0 {
        Seq::<char>::empty()
    } else if headers.len() == 1 {
        lowercase(headers[0].0@)
    } else {
        joined_names(headers.drop_last()) + seq![','] + lowercase(headers.last().0@)
    }
}

/// The three `Accept` headers, joined by `|`.
pub open spec fn accept_tuple(headers: Seq<(String, String)>) -> Seq<char> {
    header_value(headers, "accept"@) + seq!['|'] + header_value(headers, "accept-encoding"@)
        + seq!['|'] + header_value(headers, "accept-language"@)
}

/// The family of a `User-Agent`, from whether it is empty and its
/// lower-cased form. The rules apply in this order.
pub open spec fn ua_family_of_lowered(ua_is_empty: bool, ua: Seq<char>) -> Seq<char> {
    if has_substring(ua, "chrome"@) && !has_substring(ua, "chromium"@) && !has_substring(
        ua,
        "edg"@,
    ) {
        "Chrome"@
    } else if has_substring(ua, "firefox"@) {
        "Firefox"@
    } else if has_substring(ua, "safari"@) && !has_substring(ua, "chrome"@) {
        "Safari"@
    } else if has_substring(ua, "edg"@) {
        "Edge"@
    } else if has_substring(ua, "curl"@) {
        "curl"@
    } else if has_substring(ua, "wget"@) {
        "wget"@
    } else if has_substring(ua, "python-requests"@) || has_substring(ua, "python-urllib"@) {
        "python"@
    } else if has_substring(ua, "scrapy"@) {
        "scrapy"@
    } else if has_substring(ua, "googlebot"@) {
        "Googlebot"@
    } else if has_substring(ua, "bingbot"@) {
        "Bingbot"@
    } else if has_substring(ua, "bot"@) || has_substring(ua, "crawler"@) || has_substring(
        ua,
        "spider"@,
    ) {
        "bot-generic"@
    } else if ua_is_empty {
        "empty"@
    } else {
        "other"@
    }
}

/// The family of a `User-Agent`.
pub open spec fn ua_family_of(ua: Seq<char>) -> Seq<char> {
    ua_family_of_lowered(ua.len() == 0, lowercase(ua))
}

/// Some header called `Accept` has a value that is neither empty nor `*/*`.
pub open spec fn standard_accept(headers: Seq<(String, String)>) -> bool {
    exists|i: int|
        0 <= i < headers.len() && same_ignoring_ascii_case(
            (#[trigger] headers[i]).0@,
            "accept"@,
        ) && headers[i].1@.len() > 0 && headers[i].1@ != "*/*"@
}

/// The value of the first header called `name`, or the empty text.
pub fn find_header(headers: &[(String, String)], name: &str) -> (out: Vec<char>)
    ensures
        out@ == header_value(headers@, name@),
{
    let wanted = chars_of(name);
    let mut i: usize = 0;
    proof {
        assert(headers@.skip(0) =~= headers@);
    }
    while i < headers.len()
        invariant
            i <= headers.len(),
            wanted@ == name@,
            header_value(headers@, name@) == header_value(headers@.skip(i as int), name@),
        decreases headers.len() - i,
    {
        let key = chars_of(headers[i].0.as_str());
        proof {
            assert(headers@.skip(i as int)[0] == headers@[i as int]);
            assert(headers@.skip(i as int).drop_first() =~= headers@.skip(i + 1));
        }
        if eq_ignore_ascii_case(key.as_slice(), wanted.as_slice()) {
            return chars_of(headers[i].1.as_str());
        }
        i += 1;
    }
    Vec::new()
}

/// The family of a `User-Agent`, from whether it is empty and its
/// lower-cased form.
pub fn ua_family_from_lowered(ua_is_empty: bool, ua: &[char]) -> (out: String)
    ensures
        out@ == ua_family_of_lowered(ua_is_empty, ua@),
{
    if contains_str(ua, "chrome") && !contains_str(ua, "chromium") && !contains_str(ua, "edg") {
        "Chrome".to_owned()
    } else if contains_str(ua, "firefox") {
        "Firefox".to_owned()
    } else if contains_str(ua, "safari") && !contains_str(ua, "chrome") {
        "Safari".to_owned()
    } else if contains_str(ua, "edg") {
        "Edge".to_owned()
    } else if contains_str(ua, "curl") {
        "curl".to_owned()
    } else if contains_str(ua, "wget") {
        "wget".to_owned()
    } else if contains_str(ua, "python-requests") || contains_str(ua, "python-urllib") {
        "python".to_owned()
    } else if contains_str(ua, "scrapy") {
        "scrapy".to_owned()
    } else if contains_str(ua, "googlebot") {
        "Googlebot".to_owned()
    } else if contains_str(ua, "bingbot") {
        "Bingbot".to_owned()
    } else if contains_str(ua, "bot") || contains_str(ua, "crawler") || contains_str(ua, "spider") {
        "bot-generic".to_owned()
    } else if ua_is_empty {
        "empty".to_owned()
    } else {
        "other".to_owned()
    }
}

/// The family of a `User-Agent`.
pub fn extract_ua_family(ua: &str) -> (out: String)
    ensures
        out@ == ua_family_of(ua@),
{
    let lowered = lowercase_chars(ua);
    ua_family_from_lowered(chars_of(ua).len() == 0, lowered.as_slice())
}

/// The fingerprint of a request with these headers, in the order given.
/// The method takes no part in it.
pub fn compute_fingerprint(headers: &[(String, String)], _method: &str) -> (fp: HttpFingerprint)
    ensures
        fp.header_order_hash@ == sha256_hex_of(joined_names(headers@)),
        fp.ua_family@ == ua_family_of(header_value(headers@, "user-agent"@)),
        fp.accept_hash@ == sha256_hex_of(accept_tuple(headers@)),
{
    let mut names: Vec<char> = Vec::new();
    let mut i: usize = 0;
    proof {
        assert(headers@.take(0) =~= Seq::<(String, String)>::empty());
    }
    while i < headers.len()
        invariant
            i <= headers.len(),
            names@ == joined_names(headers@.take(i as int)),
        decreases headers.len() - i,
    {
        let lowered = lowercase_chars(headers[i].0.as_str());
        proof {
            let next = headers@.take(i + 1);
            assert(next.drop_last() =~= headers@.take(i as int));
            assert(next.last() == headers@[i as int]);
            if i == 0 {
                assert(names@ + lowered@ =~= lowered@);
            }
        }
        if i > 0 {
            names.push(',');
        }
        push_all(&mut names, lowered.as_slice());
        proof {
            if i > 0 {
                assert(names@ =~= joined_names(headers@.take(i as int)) + seq![','] + lowered@);
            }
        }
        i += 1;
    }
    proof {
        assert(headers@.take(headers.len() as int) =~= headers@);
    }
    let names_text = string_of(names.as_slice());
    let header_order_hash = sha256_hex_str(names_text.as_str());

    let ua = find_header(headers, "user-agent");
    let ua_text = string_of(ua.as_slice());
    let ua_family = extract_ua_family(ua_text.as_str());

    let mut tuple = find_header(headers, "accept");
    let encoding = find_header(headers, "accept-encoding");
    let language = find_header(headers, "accept-language");
    tuple.push('|');
    push_all(&mut tuple, encoding.as_slice());
    tuple.push('|');
    push_all(&mut tuple, language.as_slice());
    proof {
        assert(tuple@ =~= accept_tuple(headers@));
    }
    let tuple_text = string_of(tuple.as_slice());
    let accept_hash = sha256_hex_str(tuple_text.as_str());

    HttpFingerprint { header_order_hash, ua_family, accept_hash }
}

/// Whether the request has an `Accept` header that a browser would send:
/// present, not empty and not `*/*`.
pub fn has_standard_accept(headers: &[(String, String)]) -> (r: bool)
    ensures
        r == standard_accept(headers@),
{
    let accept = chars_of("accept");
    let wildcard = chars_of("*/*");
    let mut i: usize = 0;
    while i < headers.len()
        invariant
            i <= headers.len(),
            accept@ == "accept"@,
            wildcard@ == "*/*"@,
            forall|k: int|
                0 <= k < i ==> !(same_ignoring_ascii_case((#[trigger] headers@[k]).0@, "accept"@)
                    && headers@[k].1@.len() > 0 && headers@[k].1@ != "*/*"@),
        decreases headers.len() - i,
    {
        let key = chars_of(headers[i].0.as_str());
        let value = chars_of(headers[i].1.as_str());
        if eq_ignore_ascii_case(key.as_slice(), accept.as_slice()) && value.len() > 0 && !(
        value.len() == wildcard.len() && crate::text::matches_at(
            value.as_slice(),
            wildcard.as_slice(),
            0,
        )) {
            proof {
                if value@ == wildcard@ {
                    assert(value@.subrange(0, wildcard@.len() as int) =~= value@);
                }
            }
            return true;
        }
        proof {
            if value@.len() == wildcard@.len() && crate::text::occurs_at(value@, wildcard@, 0) {
                assert(value@.subrange(0, wildcard@.len() as int) =~= value@);
            }
        }
        i += 1;
    }
    false
}

} // verus!
