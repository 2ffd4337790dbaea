//! The proof-of-work challenge: the page that sets it, and the cookie that
//! proves it was solved.
//!
//! The cookie is `ip:timestamp:pow_hash:hmac`. The tag signs
//! `ip:timestamp:verified` under the configured secret; the proof-of-work
//! hash is the client's cost and is not checked again here.

use crate::clock::{age, unix_now_secs};
use crate::digest::{compute_hmac, constant_time_eq, hmac_hex_of};
use crate::text::{
    chars_of, copy_range, decimal_of, decimal_text, lemma_split_update, parse_u64, piece_index,
    push_all, split, split_on, starts_with, string_of, trim, trimmed, u64_of_text,
};
use vstd::prelude::*;
use vstd::string::StringExecFns;

verus! {

broadcast use vstd::string::group_string_axioms;

/// The name of the challenge cookie, with the `=` that follows it.
pub const CHALLENGE_COOKIE_PREFIX: &'static str = "__l7w_bc=";

/// The challenge page up to the challenge text in its script.
pub const PAGE_HEAD: &'static str = r#"<!DOCTYPE html>
<html>
<head>
<title>Checking your browser...</title>
<style>
body { font-family: -apple-system, sans-serif; display: flex; justify-content: center;
  align-items: center; min-height: 100vh; margin: 0; background: #0a0a0a; color: #e0e0e0; }
.container { text-align: center; max-width: 400px; }
.spinner { width: 40px; height: 40px; border: 3px solid #333; border-top: 3px solid #3b82f6;
  border-radius: 50%; animation: spin 1s linear infinite; margin: 20px auto; }
@keyframes spin { to { transform: rotate(360deg); } }
p { color: #888; font-size: 14px; }
</style>
</head>
<body>
<div class="container">
  <h2>Verifying you are human</h2>
  <div class="spinner"></div>
  <p id="status">Running browser check...</p>
</div>
<script>
(async function() {
  const challenge = ""#;

/// The page between the challenge text and the difficulty.
pub const PAGE_DIFFICULTY: &'static str = r#"";
  const difficulty = "#;

/// The page between the difficulty and the tag.
pub const PAGE_HMAC: &'static str = r#";
  const hmac = ""#;

/// The page between the tag and the client address.
pub const PAGE_IP: &'static str = r#"";
  const ip = ""#;

/// The page between the client address and the timestamp.
pub const PAGE_TS: &'static str = r#"";
  const ts = ""#;

/// The rest of the page: the script that searches for the nonce, sets the
/// cookie and loads the page again.
pub const PAGE_TAIL: &'static str = r#"";

  // SHA-256 helper using Web Crypto API
  async function sha256(msg) {
    const data = new TextEncoder().encode(msg);
    const buf = await crypto.subtle.digest('SHA-256', data);
    return Array.from(new Uint8Array(buf)).map(b => b.toString(16).padStart(2, '0')).join('');
  }

  // Check if hash has required leading zero bits
  function hasLeadingZeros(hash, bits) {
    const fullBytes = Math.floor(bits / 4);
    const prefix = hash.substring(0, fullBytes);
    for (let i = 0; i < prefix.length; i++) {
      if (prefix[i] !== '0') return false;
    }
    if (bits % 4 !== 0) {
      const nextChar = parseInt(hash[fullBytes], 16);
      const remaining = bits % 4;
      if (nextChar >= (1 << (4 - remaining))) return false;
    }
    return true;
  }

  // Proof-of-work: find nonce where SHA-256(challenge + ":" + nonce) has leading zeros
  let nonce = 0;
  let hash = '';
  const statusEl = document.getElementById('status');
  const startTime = Date.now();

  while (true) {
    hash = await sha256(challenge + ':' + nonce);
    if (hasLeadingZeros(hash, difficulty)) break;
    nonce++;
    if (nonce % 1000 === 0) {
      statusEl.textContent = 'Computing... (' + nonce + ' hashes)';
      await new Promise(r => setTimeout(r, 0)); // yield to UI
    }
  }

  const elapsed = Date.now() - startTime;
  statusEl.textContent = 'Verified in ' + elapsed + 'ms. Redirecting...';

  // Set verification cookie: ip:timestamp:hash:hmac
  const cookieValue = ip + ':' + ts + ':' + hash + ':' + hmac;
  document.cookie = '__l7w_bc=' + encodeURIComponent(cookieValue) + ';path=/;max-age=3600;SameSite=Lax';

  // Redirect to the same page
  setTimeout(function() { window.location.reload(); }, 500);
})();
</script>
</body>
</html>"#;

// ---------------------------------------------------------------------------
// Issuing
// ---------------------------------------------------------------------------

/// What the client must find a nonce for: `ip:timestamp`.
pub open spec fn challenge_data(ip: Seq<char>, timestamp: u64) -> Seq<char> {
    ip + seq![':'] + decimal_text(timestamp as nat)
}

/// The text that the tag of a challenge signs: `ip:timestamp:verified`,
/// the timestamp as it is written in the cookie.
pub open spec fn signed_text(ip: Seq<char>, timestamp: Seq<char>) -> Seq<char> {
    ip + seq![':'] + timestamp + ":verified"@
}

/// The tag that the server gives out with a challenge.
pub open spec fn challenge_tag(ip: Seq<char>, secret: Seq<char>, timestamp: u64) -> Seq<char> {
    hmac_hex_of(secret, signed_text(ip, decimal_text(timestamp as nat)))
}

/// The challenge page for a client, a difficulty in bits, a secret and the
/// time of issue.
pub open spec fn challenge_page(ip: Seq<char>, difficulty: u32, secret: Seq<char>, timestamp: u64)
    -> Seq<char> {
    PAGE_HEAD@ + challenge_data(ip, timestamp) + PAGE_DIFFICULTY@ + decimal_text(difficulty as nat)
        + PAGE_HMAC@ + challenge_tag(ip, secret, timestamp) + PAGE_IP@ + ip + PAGE_TS@
        + decimal_text(timestamp as nat) + PAGE_TAIL@
}

/// The cookie value that a client holds once it has solved the challenge
/// issued at `timestamp`, whatever proof-of-work hash it found.
pub open spec fn solved_cookie(
    ip: Seq<char>,
    secret: Seq<char>,
    timestamp: u64,
    pow_hash: Seq<char>,
) -> Seq<char> {
    ip + seq![':'] + decimal_text(timestamp as nat) + seq![':'] + pow_hash + seq![':']
        + challenge_tag(ip, secret, timestamp)
}

/// The tag of the challenge issued to `client_ip` at `timestamp`.
pub fn sign_challenge(client_ip: &str, secret: &str, timestamp: &str) -> (out: String)
    ensures
        out@ == hmac_hex_of(secret@, signed_text(client_ip@, timestamp@)),
        out@.len() == 64,
{
    let mut msg = String::new();
    msg.append(client_ip);
    msg.append(":");
    msg.append(timestamp);
    msg.append(":verified");
    proof {
        reveal_strlit(":");
        assert(msg@ =~= signed_text(client_ip@, timestamp@));
    }
    compute_hmac(secret, msg.as_str())
}

/// The challenge page issued at `timestamp` (seconds since the Unix epoch).
pub fn generate_challenge_at(client_ip: &str, difficulty: u32, secret: &str, timestamp: u64) -> (out:
    String)
    ensures
        out@ == challenge_page(client_ip@, difficulty, secret@, timestamp),
{
    let ts_chars = decimal_of(timestamp);
    let ts = string_of(ts_chars.as_slice());
    let difficulty_chars = decimal_of(difficulty as u64);
    let difficulty_text = string_of(difficulty_chars.as_slice());
    let tag = sign_challenge(client_ip, secret, ts.as_str());
    let mut out = String::new();
    out.append(PAGE_HEAD);
    out.append(client_ip);
    out.append(":");
    out.append(ts.as_str());
    out.append(PAGE_DIFFICULTY);
    out.append(difficulty_text.as_str());
    out.append(PAGE_HMAC);
    out.append(tag.as_str());
    out.append(PAGE_IP);
    out.append(client_ip);
    out.append(PAGE_TS);
    out.append(ts.as_str());
    out.append(PAGE_TAIL);
    proof {
        reveal_strlit(":");
        assert(out@ =~= challenge_page(client_ip@, difficulty, secret@, timestamp));
    }
    out
}

/// The challenge page for a client, issued now.
pub fn generate_challenge(client_ip: &str, difficulty: u32, secret: &str) -> (out: String)
    ensures
        exists|timestamp: u64| out@ == challenge_page(client_ip@, difficulty, secret@, timestamp),
{
    let now = unix_now_secs();
    generate_challenge_at(client_ip, difficulty, secret, now)
}

// ---------------------------------------------------------------------------
// Verifying
// ---------------------------------------------------------------------------

/// A challenge cookie is valid for a client at `now` when it has exactly
/// four fields, the first is the client's address, the second a timestamp
/// no older than `ttl_secs`, and the fourth the tag of the first two under
/// `secret`.
pub open spec fn challenge_cookie_valid(
    cookie: Seq<char>,
    ip: Seq<char>,
    secret: Seq<char>,
    ttl_secs: u64,
    now: u64,
) -> bool {
    let parts = split(cookie, ':');
    &&& parts.len() == 4
    &&& parts[0] == ip
    &&& u64_of_text(parts[1]) is Some
    &&& age(now, u64_of_text(parts[1])->Some_0) <= ttl_secs
    &&& parts[3] == hmac_hex_of(secret, signed_text(parts[0], parts[1]))
}

/// Whether `cookie_value` proves, at `now`, that `client_ip` solved a
/// challenge issued under `secret` no more than `ttl_secs` ago.
pub fn verify_challenge_cookie_at(
    cookie_value: &str,
    client_ip: &str,
    secret: &str,
    ttl_secs: u64,
    now: u64,
) -> (r: bool)
    ensures
        r == challenge_cookie_valid(cookie_value@, client_ip@, secret@, ttl_secs, now),
{
    let cookie = chars_of(cookie_value);
    let parts = split_on(cookie.as_slice(), ':');
    if parts.len() != 4 {
        return false;
    }
    proof {
        let v = crate::text::views(parts@);
        assert(v[0] == parts@[0]@);
        assert(v[1] == parts@[1]@);
        assert(v[3] == parts@[3]@);
    }
    let ip = chars_of(client_ip);
    if !(parts[0].len() == ip.len() && starts_with(parts[0].as_slice(), ip.as_slice())) {
        proof {
            if parts@[0]@ == ip@ {
                assert(ip@.is_prefix_of(parts@[0]@));
            }
        }
        return false;
    }
    proof {
        assert(parts@[0]@ =~= ip@);
    }
    let ts = match parse_u64(parts[1].as_slice()) {
        Some(v) => v,
        None => {
            return false;
        },
    };
    if now.saturating_sub(ts) > ttl_secs {
        return false;
    }
    let ts_text = string_of(parts[1].as_slice());
    let expected = sign_challenge(client_ip, secret, ts_text.as_str());
    let expected_chars = chars_of(expected.as_str());
    constant_time_eq(parts[3].as_slice(), expected_chars.as_slice())
}

/// Whether `cookie_value` proves now that `client_ip` solved a challenge.
/// The answer is that of [`verify_challenge_cookie_at`] at the time the
/// system clock shows.
pub fn verify_challenge_cookie(cookie_value: &str, client_ip: &str, secret: &str, ttl_secs: u64) -> (r:
    bool)
    ensures
        exists|now: u64|
            r == challenge_cookie_valid(cookie_value@, client_ip@, secret@, ttl_secs, now),
{
    let now = unix_now_secs();
    verify_challenge_cookie_at(cookie_value, client_ip, secret, ttl_secs, now)
}

/// A text of decimal digits or of hexadecimal digits holds no colon.
pub proof fn lemma_numbers_hold_no_colon(n: nat, data: Seq<u8>)
    ensures
        !decimal_text(n).contains(':'),
        !crate::digest::hex_lower(data).contains(':'),
{
    crate::text::lemma_decimal_round_trip(n);
    crate::digest::lemma_hex_lower_lacks(data, ':');
    if decimal_text(n).contains(':') {
        let i = choose|i: int| 0 <= i < decimal_text(n).len() && decimal_text(n)[i] == ':';
        assert(crate::text::is_digit(decimal_text(n)[i]));
    }
}

/// Four fields without colons, joined by colons, split into those fields.
pub proof fn lemma_four_fields(a: Seq<char>, b: Seq<char>, c: Seq<char>, d: Seq<char>)
    requires
        !a.contains(':'),
        !b.contains(':'),
        !c.contains(':'),
        !d.contains(':'),
    ensures
        split(a + seq![':'] + b + seq![':'] + c + seq![':'] + d, ':') == seq![a, b, c, d],
{
    crate::text::lemma_split_single(a, ':');
    crate::text::lemma_split_append_field(a, b, ':');
    assert(a.push(':') + b =~= a + seq![':'] + b);
    let ab = a + seq![':'] + b;
    crate::text::lemma_split_append_field(ab, c, ':');
    assert(ab.push(':') + c =~= ab + seq![':'] + c);
    let abc = ab + seq![':'] + c;
    crate::text::lemma_split_append_field(abc, d, ':');
    assert(abc.push(':') + d =~= abc + seq![':'] + d);
    assert(seq![a].push(b).push(c).push(d) =~= seq![a, b, c, d]);
}

/// The cookie of a solved challenge is accepted: for a client whose address
/// holds no colon, whatever proof-of-work hash it found, as long as the
/// challenge is no older than the time to live.
pub proof fn lemma_solved_cookie_accepted(
    ip: Seq<char>,
    secret: Seq<char>,
    timestamp: u64,
    pow_hash: Seq<char>,
    ttl_secs: u64,
    now: u64,
)
    requires
        !ip.contains(':'),
        !pow_hash.contains(':'),
        age(now, timestamp) <= ttl_secs,
    ensures
        challenge_cookie_valid(
            solved_cookie(ip, secret, timestamp, pow_hash),
            ip,
            secret,
            ttl_secs,
            now,
        ),
{
    let ts = decimal_text(timestamp as nat);
    let tag = challenge_tag(ip, secret, timestamp);
    lemma_numbers_hold_no_colon(
        timestamp as nat,
        crate::digest::hmac_sha256_tag(
            crate::digest::utf8(secret),
            crate::digest::utf8(signed_text(ip, ts)),
        ),
    );
    lemma_four_fields(ip, ts, pow_hash, tag);
    crate::text::lemma_u64_text_round_trip(timestamp);
}

/// A cookie is bound to the address it was issued to: no cookie is valid
/// for two different clients.
pub proof fn lemma_cookie_bound_to_client(
    cookie: Seq<char>,
    ip: Seq<char>,
    other_ip: Seq<char>,
    secret: Seq<char>,
    ttl_secs: u64,
    now: u64,
)
    requires
        challenge_cookie_valid(cookie, ip, secret, ttl_secs, now),
        other_ip != ip,
    ensures
        !challenge_cookie_valid(cookie, other_ip, secret, ttl_secs, now),
{
}

/// A cookie whose tag was altered is refused, whatever the other fields
/// hold.
pub proof fn lemma_altered_tag_refused(
    ip: Seq<char>,
    secret: Seq<char>,
    timestamp: u64,
    pow_hash: Seq<char>,
    altered_tag: Seq<char>,
    ttl_secs: u64,
    now: u64,
)
    requires
        !ip.contains(':'),
        !pow_hash.contains(':'),
        !altered_tag.contains(':'),
        altered_tag != challenge_tag(ip, secret, timestamp),
    ensures
        !challenge_cookie_valid(
            ip + seq![':'] + decimal_text(timestamp as nat) + seq![':'] + pow_hash + seq![':']
                + altered_tag,
            ip,
            secret,
            ttl_secs,
            now,
        ),
{
    let ts = decimal_text(timestamp as nat);
    lemma_numbers_hold_no_colon(timestamp as nat, Seq::<u8>::empty());
    lemma_four_fields(ip, ts, pow_hash, altered_tag);
}

/// A value that does not have exactly four fields, or whose second field is
/// no number that 64 bits hold, is valid for nobody and at no time.
pub proof fn lemma_malformed_cookie_refused(
    cookie: Seq<char>,
    ip: Seq<char>,
    secret: Seq<char>,
    ttl_secs: u64,
    now: u64,
)
    requires
        split(cookie, ':').len() != 4 || u64_of_text(split(cookie, ':')[1]) is None,
    ensures
        !challenge_cookie_valid(cookie, ip, secret, ttl_secs, now),
{
}

/// A valid cookie in which one character was changed is refused, where the
/// change puts a colon, removes one, or lies in the address or in the tag.
///
/// A change inside the proof-of-work hash goes unnoticed, since nothing
/// reads that field. That a change inside the timestamp is refused rests on
/// the tags of two different texts being different, which is not stated
/// here.
pub proof fn lemma_altered_cookie_refused(
    cookie: Seq<char>,
    i: int,
    c: char,
    ip: Seq<char>,
    secret: Seq<char>,
    ttl_secs: u64,
    now: u64,
)
    requires
        challenge_cookie_valid(cookie, ip, secret, ttl_secs, now),
        0 <= i < cookie.len(),
        c != cookie[i],
        c == ':' || cookie[i] == ':' || piece_index(cookie, ':', i) == 0 || piece_index(
            cookie,
            ':',
            i,
        ) == 3,
    ensures
        !challenge_cookie_valid(cookie.update(i, c), ip, secret, ttl_secs, now),
{
    lemma_split_update(cookie, ':', i, c);
    if c != ':' && cookie[i] != ':' {
        let before = split(cookie, ':');
        let after = split(cookie.update(i, c), ':');
        if piece_index(cookie, ':', i) == 3 {
            assert(after[0] == before[0]);
            assert(after[1] == before[1]);
        }
    }
}

/// A cookie that is older than the time to live is refused.
pub proof fn lemma_expired_cookie_refused(
    ip: Seq<char>,
    secret: Seq<char>,
    timestamp: u64,
    pow_hash: Seq<char>,
    ttl_secs: u64,
    now: u64,
)
    requires
        !ip.contains(':'),
        !pow_hash.contains(':'),
        age(now, timestamp) > ttl_secs,
    ensures
        !challenge_cookie_valid(
            solved_cookie(ip, secret, timestamp, pow_hash),
            ip,
            secret,
            ttl_secs,
            now,
        ),
{
    let ts = decimal_text(timestamp as nat);
    let tag = challenge_tag(ip, secret, timestamp);
    lemma_numbers_hold_no_colon(
        timestamp as nat,
        crate::digest::hmac_sha256_tag(
            crate::digest::utf8(secret),
            crate::digest::utf8(signed_text(ip, ts)),
        ),
    );
    lemma_four_fields(ip, ts, pow_hash, tag);
    crate::text::lemma_u64_text_round_trip(timestamp);
}

// ---------------------------------------------------------------------------
// Reading the cookie out of a header
// ---------------------------------------------------------------------------

/// The value of a hexadecimal digit of either case.
pub open spec fn hex_value(c: char) -> Option<int> {
    if '0' <= c <= '9' {
        Some(c as u32 - 48)
    } else if 'a' <= c <= 'f' {
        Some(c as u32 - 87)
    } else if 'A' <= c <= 'F' {
        Some(c as u32 - 55)
    } else {
        None
    }
}

/// The text that a percent-encoded text stands for. `%` and two hexadecimal
/// digits give the character with that code; `+` gives a space; a `%` that
/// no two hexadecimal digits follow stays, and so do the next two characters
/// at most.
pub open spec fn url_decoded(s: Seq<char>) -> Seq<char>
    decreases s.len(),
{
    if s.len() == 0 {
        Seq::<char>::empty()
    } else if s[0] == '%' {
        if s.len() >= 3 && hex_value(s[1]) is Some && hex_value(s[2]) is Some {
            seq![((hex_value(s[1])->Some_0 * 16 + hex_value(s[2])->Some_0) as u8) as char]
                + url_decoded(s.skip(3))
        } else if s.len() >= 3 {
            s.take(3) + url_decoded(s.skip(3))
        } else {
            s
        }
    } else if s[0] == '+' {
        seq![' '] + url_decoded(s.drop_first())
    } else {
        seq![s[0]] + url_decoded(s.drop_first())
    }
}

fn hex_digit_value(c: char) -> (r: Option<u8>)
    ensures
        match r {
            Some(v) => hex_value(c) == Some(v as int) && v < 16,
            None => hex_value(c) is None,
        },
{
    if '0' <= c && c <= '9' {
        Some((c as u32 - 48) as u8)
    } else if 'a' <= c && c <= 'f' {
        Some((c as u32 - 87) as u8)
    } else if 'A' <= c && c <= 'F' {
        Some((c as u32 - 55) as u8)
    } else {
        None
    }
}

/// Decodes a percent-encoded text.
pub fn urldecode(s: &str) -> (out: String)
    ensures
        out@ == url_decoded(s@),
{
    let chars = chars_of(s);
    let decoded = urldecode_chars(chars.as_slice());
    string_of(decoded.as_slice())
}

/// Decodes a percent-encoded text.
pub fn urldecode_chars(s: &[char]) -> (out: Vec<char>)
    ensures
        out@ == url_decoded(s@),
{
    let mut out: Vec<char> = Vec::new();
    let mut i: usize = 0;
    proof {
        assert(s@.skip(0) =~= s@);
    }
    while i < s.len()
        invariant
            i <= s.len(),
            url_decoded(s@) == out@ + url_decoded(s@.skip(i as int)),
        decreases s.len() - i,
    {
        let c = s[i];
        let ghost rest = s@.skip(i as int);
        let ghost before = out@;
        proof {
            assert(rest[0] == c);
            assert(rest.drop_first() =~= s@.skip(i + 1));
        }
        if c == '%' {
            if s.len() - i >= 3 {
                proof {
                    assert(rest[1] == s@[i + 1]);
                    assert(rest[2] == s@[i + 2]);
                    assert(rest.skip(3) =~= s@.skip(i + 3));
                }
                let high = hex_digit_value(s[i + 1]);
                let low = hex_digit_value(s[i + 2]);
                match (high, low) {
                    (Some(h), Some(l)) => {
                        out.push((h * 16 + l) as char);
                        proof {
                            assert(out@ + url_decoded(s@.skip(i + 3)) =~= before + url_decoded(
                                rest,
                            ));
                        }
                    },
                    _ => {
                        out.push(c);
                        out.push(s[i + 1]);
                        out.push(s[i + 2]);
                        proof {
                            assert(out@ =~= before + rest.take(3));
                            assert(out@ + url_decoded(s@.skip(i + 3)) =~= before + url_decoded(
                                rest,
                            ));
                        }
                    },
                }
                i += 3;
            } else {
                let tail = copy_range(s, i, s.len());
                push_all(&mut out, tail.as_slice());
                proof {
                    assert(tail@ =~= rest);
                    assert(s@.skip(s.len() as int) =~= Seq::<char>::empty());
                    assert(out@ + url_decoded(s@.skip(s.len() as int)) =~= before + url_decoded(
                        rest,
                    ));
                }
                i = s.len();
            }
        } else {
            if c == '+' {
                out.push(' ');
            } else {
                out.push(c);
            }
            proof {
                assert(out@ + url_decoded(s@.skip(i + 1)) =~= before + url_decoded(rest));
            }
            i += 1;
        }
    }
    proof {
        assert(s@.skip(s.len() as int) =~= Seq::<char>::empty());
        assert(out@ + Seq::<char>::empty() =~= out@);
    }
    out
}

/// The decoded value of the first cookie called `name` among the pieces of
/// a `Cookie` header: the pieces stand between `;`, white space around a
/// piece does not count, and `name` comes with its `=`.
pub open spec fn cookie_among(pieces: Seq<Seq<char>>, name: Seq<char>) -> Option<Seq<char>>
    decreases pieces.len(),
{
    if pieces.len() == 0 {
        None
    } else if name.is_prefix_of(trimmed(pieces[0])) {
        Some(url_decoded(trimmed(pieces[0]).skip(name.len() as int)))
    } else {
        cookie_among(pieces.drop_first(), name)
    }
}

/// The decoded value of the cookie called `name` in a `Cookie` header.
pub open spec fn cookie_in_header(header: Seq<char>, name: Seq<char>) -> Option<Seq<char>> {
    cookie_among(split(header, ';'), name)
}

/// The decoded value of the first cookie of a `Cookie` header whose name,
/// with the `=`, is `name`.
pub fn extract_cookie(cookie_header: &str, name: &str) -> (r: Option<String>)
    ensures
        match r {
            Some(v) => cookie_in_header(cookie_header@, name@) == Some(v@),
            None => cookie_in_header(cookie_header@, name@) is None,
        },
{
    let header = chars_of(cookie_header);
    let wanted = chars_of(name);
    let pieces = split_on(header.as_slice(), ';');
    let ghost all = crate::text::views(pieces@);
    let mut i: usize = 0;
    proof {
        assert(all.skip(0) =~= all);
    }
    while i < pieces.len()
        invariant
            i <= pieces.len(),
            all == crate::text::views(pieces@),
            all == split(cookie_header@, ';'),
            wanted@ == name@,
            cookie_in_header(cookie_header@, name@) == cookie_among(all.skip(i as int), name@),
        decreases pieces.len() - i,
    {
        let piece = trim(pieces[i].as_slice());
        proof {
            assert(all.skip(i as int)[0] == pieces@[i as int]@);
            assert(all.skip(i as int).drop_first() =~= all.skip(i + 1));
        }
        if starts_with(piece.as_slice(), wanted.as_slice()) {
            let value = copy_range(piece.as_slice(), wanted.len(), piece.len());
            proof {
                assert(value@ =~= piece@.skip(wanted@.len() as int));
            }
            let decoded = urldecode_chars(value.as_slice());
            return Some(string_of(decoded.as_slice()));
        }
        i += 1;
    }
    None
}

/// The decoded value of the challenge cookie in a `Cookie` header.
pub fn extract_challenge_cookie(cookie_header: &str) -> (r: Option<String>)
    ensures
        match r {
            Some(v) => cookie_in_header(cookie_header@, CHALLENGE_COOKIE_PREFIX@) == Some(v@),
            None => cookie_in_header(cookie_header@, CHALLENGE_COOKIE_PREFIX@) is None,
        },
{
    extract_cookie(cookie_header, CHALLENGE_COOKIE_PREFIX)
}

} // verus!
