//! The arithmetic CAPTCHA: the page that asks the question, and the cookie
//! that carries the answer back.
//!
//! The cookie is `ip:timestamp:answer_hash:hmac:user_answer`. The tag signs
//! `ip:timestamp:answer_hash` under the configured secret, and the cookie is
//! valid when the SHA-256 of the answer given is the signed hash.

use crate::clock::unix_now_secs;
use crate::digest::{
    compute_hmac, constant_time_eq, hmac_hex_of, sha256_hex_of, sha256_hex_str,
};
use crate::clock::age;
use crate::js_challenge::{cookie_in_header, extract_cookie};
use crate::random::{random_i32, random_u32};
use crate::text::{
    chars_of, decimal_of, decimal_text, lemma_split_update, parse_u64, piece_index,
    signed_decimal_of, signed_decimal_text, split, split_on, starts_with, string_of, u64_of_text,
};
use vstd::prelude::*;
use vstd::string::StringExecFns;

verus! {

broadcast use vstd::string::group_string_axioms;

/// The name of the CAPTCHA cookie, with the `=` that follows it.
pub const CAPTCHA_COOKIE_PREFIX: &'static str = "__l7w_captcha=";

/// One line of noise across the picture.
#[derive(Debug, Clone, Copy)]
pub struct NoiseLine {
    pub x1: u32,
    pub y1: u32,
    pub x2: u32,
    pub y2: u32,
    pub red: u8,
    pub green: u8,
    pub blue: u8,
}

/// Everything about a CAPTCHA that is left to chance: the two terms of the
/// sum, where and at which angle each is drawn, and the noise.
#[derive(Debug, Clone)]
pub struct CaptchaDraw {
    pub a: u32,
    pub b: u32,
    pub noise: Vec<NoiseLine>,
    pub a_x: u32,
    pub a_rot: i32,
    pub plus_x: u32,
    pub b_x: u32,
    pub b_rot: i32,
    pub eq_x: u32,
}

impl NoiseLine {
    /// The line lies inside the picture and is drawn in a light colour.
    pub open spec fn in_range(&self) -> bool {
        &&& self.x1 < 200
        &&& self.y1 < 60
        &&& self.x2 < 200
        &&& self.y2 < 60
        &&& 100 <= self.red < 200
        &&& 100 <= self.green < 200
        &&& 100 <= self.blue < 200
    }
}

impl CaptchaDraw {
    /// Every number lies in the range it is drawn from.
    pub open spec fn in_range(&self) -> bool {
        &&& 2 <= self.a < 50
        &&& 2 <= self.b < 50
        &&& self.noise@.len() == 5
        &&& forall|i: int| 0 <= i < self.noise@.len() ==> (#[trigger] self.noise@[i]).in_range()
        &&& 15 <= self.a_x < 35
        &&& -15 <= self.a_rot < 15
        &&& 70 <= self.plus_x < 90
        &&& 115 <= self.b_x < 140
        &&& -15 <= self.b_rot < 15
        &&& 160 <= self.eq_x < 180
    }

    /// The sum that the client is asked for.
    pub open spec fn answer(&self) -> nat {
        (self.a + self.b) as nat
    }
}

/// Draws the numbers of a new CAPTCHA.
pub fn draw_captcha() -> (draw: CaptchaDraw)
    ensures
        draw.in_range(),
{
    let a = random_u32(2, 50);
    let b = random_u32(2, 50);
    let mut noise: Vec<NoiseLine> = Vec::new();
    let mut i: usize = 0;
    while i < 5
        invariant
            i <= 5,
            noise@.len() == i,
            forall|k: int| 0 <= k < noise@.len() ==> (#[trigger] noise@[k]).in_range(),
        decreases 5 - i,
    {
        let x1 = random_u32(0, 200);
        let y1 = random_u32(0, 60);
        let x2 = random_u32(0, 200);
        let y2 = random_u32(0, 60);
        let red = random_u32(100, 200) as u8;
        let green = random_u32(100, 200) as u8;
        let blue = random_u32(100, 200) as u8;
        noise.push(NoiseLine { x1, y1, x2, y2, red, green, blue });
        i += 1;
    }
    let a_x = random_u32(15, 35);
    let a_rot = random_i32(-15, 15);
    let plus_x = random_u32(70, 90);
    let b_x = random_u32(115, 140);
    let b_rot = random_i32(-15, 15);
    let eq_x = random_u32(160, 180);
    CaptchaDraw { a, b, noise, a_x, a_rot, plus_x, b_x, b_rot, eq_x }
}

// ---------------------------------------------------------------------------
// The token and the cookie
// ---------------------------------------------------------------------------

/// The text that the tag of a CAPTCHA signs: `ip:timestamp:answer_hash`.
pub open spec fn captcha_signed_text(ip: Seq<char>, timestamp: Seq<char>, answer_hash: Seq<char>)
    -> Seq<char> {
    ip + seq![':'] + timestamp + seq![':'] + answer_hash
}

/// The token that the page hands to the client:
/// `ip:timestamp:answer_hash:hmac`.
pub open spec fn captcha_token(ip: Seq<char>, secret: Seq<char>, timestamp: u64, answer: nat)
    -> Seq<char> {
    let signed = captcha_signed_text(
        ip,
        decimal_text(timestamp as nat),
        sha256_hex_of(decimal_text(answer)),
    );
    signed + seq![':'] + hmac_hex_of(secret, signed)
}

/// The cookie value that the page sets when the client submits
/// `user_answer`: the token, a colon and the answer.
pub open spec fn submitted_cookie(token: Seq<char>, user_answer: Seq<char>) -> Seq<char> {
    token + seq![':'] + user_answer
}

/// The token of the CAPTCHA issued to `client_ip` at `timestamp` with the
/// given answer.
pub fn issue_token(client_ip: &str, secret: &str, timestamp: u64, answer: u64) -> (out: String)
    ensures
        out@ == captcha_token(client_ip@, secret@, timestamp, answer as nat),
{
    let answer_chars = decimal_of(answer);
    let answer_text = string_of(answer_chars.as_slice());
    let answer_hash = sha256_hex_str(answer_text.as_str());
    let ts_chars = decimal_of(timestamp);
    let ts = string_of(ts_chars.as_slice());
    let mut signed = String::new();
    signed.append(client_ip);
    signed.append(":");
    signed.append(ts.as_str());
    signed.append(":");
    signed.append(answer_hash.as_str());
    proof {
        reveal_strlit(":");
        assert(signed@ =~= captcha_signed_text(
            client_ip@,
            decimal_text(timestamp as nat),
            sha256_hex_of(decimal_text(answer as nat)),
        ));
    }
    let tag = compute_hmac(secret, signed.as_str());
    let mut out = signed;
    out.append(":");
    out.append(tag.as_str());
    proof {
        assert(out@ =~= captcha_token(client_ip@, secret@, timestamp, answer as nat));
    }
    out
}

// ---------------------------------------------------------------------------
// The page
// ---------------------------------------------------------------------------

/// The CAPTCHA page up to the opening of the picture.
pub const CAPTCHA_HEAD: &'static str =
    "<!DOCTYPE html>\n<html lang=\"en\">\n<head>\n<meta charset=\"utf-8\">\n<meta name=\"viewport\" content=\"width=device-width, initial-scale=1\">\n<title>Verification Required</title>\n<style>\nbody { font-family: -apple-system, BlinkMacSystemFont, 'Segoe UI', Roboto, sans-serif; display: flex; justify-content: center; align-items: center; min-height: 100vh; margin: 0; background: #0a0a0a; color: #e5e5e5; }\n.container { text-align: center; padding: 2rem; max-width: 400px; background: #1a1a1a; border-radius: 12px; border: 1px solid #333; }\nh1 { font-size: 1.5rem; margin-bottom: 0.5rem; }\np { color: #999; font-size: 0.875rem; margin-bottom: 1.5rem; }\nsvg { display: block; margin: 0 auto 1rem; background: #f5f5f5; border-radius: 8px; }\ninput[type=\"text\"] { padding: 0.5rem 1rem; font-size: 1.25rem; width: 120px; text-align: center; border: 1px solid #555; border-radius: 6px; background: #222; color: #fff; }\nbutton { margin-top: 1rem; padding: 0.5rem 2rem; font-size: 1rem; background: #3b82f6; color: #fff; border: none; border-radius: 6px; cursor: pointer; }\nbutton:hover { background: #2563eb; }\n.error { color: #ef4444; font-size: 0.875rem; margin-top: 0.5rem; display: none; }\n</style>\n</head>\n<body>\n<div class=\"container\">\n<h1>Verification Required</h1>\n<p>Please solve the math problem below to continue.</p>\n<svg width=\"200\" height=\"60\" viewBox=\"0 0 200 60\" xmlns=\"http://www.w3.org/2000/svg\">\n";

/// The page between the picture and the path that the form goes to.
pub const CAPTCHA_FORM: &'static str = "\n</svg>\n<form method=\"POST\" action=\"";

/// The page between that path and the token.
pub const CAPTCHA_TOKEN_FIELD: &'static str =
    "\" id=\"captcha-form\">\n<input type=\"hidden\" name=\"__l7w_captcha_token\" value=\"";

/// The page between the token and the path to go back to.
pub const CAPTCHA_PATH_FIELD: &'static str =
    "\">\n<input type=\"hidden\" name=\"__l7w_captcha_path\" value=\"";

/// The rest of the page: the answer field and the script that sets the
/// cookie.
pub const CAPTCHA_TAIL: &'static str =
    "\">\n<input type=\"text\" name=\"__l7w_captcha_answer\" id=\"answer\" placeholder=\"Answer\" autocomplete=\"off\" autofocus>\n<div class=\"error\" id=\"error-msg\">Incorrect answer. Please try again.</div>\n<br>\n<button type=\"submit\">Verify</button>\n</form>\n<script>\ndocument.getElementById('captcha-form').addEventListener('submit', function(e) {\n  e.preventDefault();\n  var answer = document.getElementById('answer').value.trim();\n  if (!answer) return;\n  var token = document.querySelector('[name=__l7w_captcha_token]').value;\n  var path = document.querySelector('[name=__l7w_captcha_path]').value;\n  document.cookie = '__l7w_captcha=' + encodeURIComponent(token + ':' + answer) + '; path=/; max-age=1800; SameSite=Strict';\n  window.location.href = path;\n});\n</script>\n</div>\n</body>\n</html>";

/// The opening of an SVG text element, up to its horizontal position.
pub const TEXT_OPEN: &'static str = "<text x=\"";

/// The vertical position, font and colour of an SVG text element.
pub const TEXT_STYLE: &'static str =
    "\" y=\"40\" font-size=\"28\" font-family=\"monospace\" fill=\"#333\"";

/// The opening of the rotation of an SVG text element.
pub const TEXT_ROTATE: &'static str = " transform=\"rotate(";

/// The end of the rotation, and of the opening tag.
pub const TEXT_ROTATE_END: &'static str = ",40)\">";

/// The closing tag of an SVG text element.
pub const TEXT_CLOSE: &'static str = "</text>";

/// The SVG element of one line of noise.
pub open spec fn noise_line_text(l: NoiseLine) -> Seq<char> {
    "<line x1=\""@ + decimal_text(l.x1 as nat) + "\" y1=\""@ + decimal_text(l.y1 as nat)
        + "\" x2=\""@ + decimal_text(l.x2 as nat) + "\" y2=\""@ + decimal_text(l.y2 as nat)
        + "\" stroke=\"rgb("@ + decimal_text(l.red as nat) + ","@ + decimal_text(l.green as nat)
        + ","@ + decimal_text(l.blue as nat) + ")\" stroke-width=\"1\"/>"@
}

/// The SVG elements of the lines of noise, one after the other.
pub open spec fn noise_text(lines: Seq<NoiseLine>) -> Seq<char>
    decreases lines.len(),
{
    if lines.len() == 0 {
        Seq::<char>::empty()
    } else {
        noise_text(lines.drop_last()) + noise_line_text(lines.last())
    }
}

/// The SVG element of a term of the sum, drawn at `x` and turned by `rot`
/// degrees.
pub open spec fn term_text(x: u32, rot: i32, value: u32) -> Seq<char> {
    TEXT_OPEN@ + decimal_text(x as nat) + TEXT_STYLE@ + TEXT_ROTATE@ + signed_decimal_text(
        rot as int,
    ) + ","@ + decimal_text(x as nat) + TEXT_ROTATE_END@ + decimal_text(value as nat) + TEXT_CLOSE@
}

/// The SVG element of a sign of the sum, drawn upright at `x`.
pub open spec fn sign_text(x: u32, sign: Seq<char>) -> Seq<char> {
    TEXT_OPEN@ + decimal_text(x as nat) + TEXT_STYLE@ + ">"@ + sign + TEXT_CLOSE@
}

/// The four SVG elements that write `a + b = ?`.
pub open spec fn sum_text(draw: CaptchaDraw) -> Seq<char> {
    term_text(draw.a_x, draw.a_rot, draw.a) + sign_text(draw.plus_x, "+"@) + term_text(
        draw.b_x,
        draw.b_rot,
        draw.b,
    ) + sign_text(draw.eq_x, "= ?"@)
}

/// The CAPTCHA page for a client, with the path to go back to, issued at
/// `timestamp` with the numbers of `draw`.
pub open spec fn captcha_page(
    ip: Seq<char>,
    secret: Seq<char>,
    original_path: Seq<char>,
    timestamp: u64,
    draw: CaptchaDraw,
) -> Seq<char> {
    CAPTCHA_HEAD@ + noise_text(draw.noise@) + "\n"@ + sum_text(draw) + CAPTCHA_FORM@
        + original_path + CAPTCHA_TOKEN_FIELD@ + captcha_token(ip, secret, timestamp, draw.answer())
        + CAPTCHA_PATH_FIELD@ + original_path + CAPTCHA_TAIL@
}

fn append_number(out: &mut String, n: u32)
    ensures
        final(out)@ == old(out)@ + decimal_text(n as nat),
{
    let digits = decimal_of(n as u64);
    let text = string_of(digits.as_slice());
    out.append(text.as_str());
}

fn render_noise_line(out: &mut String, l: &NoiseLine)
    ensures
        final(out)@ == old(out)@ + noise_line_text(*l),
{
    let mut line = String::new();
    line.append("<line x1=\"");
    append_number(&mut line, l.x1);
    line.append("\" y1=\"");
    append_number(&mut line, l.y1);
    line.append("\" x2=\"");
    append_number(&mut line, l.x2);
    line.append("\" y2=\"");
    append_number(&mut line, l.y2);
    line.append("\" stroke=\"rgb(");
    append_number(&mut line, l.red as u32);
    line.append(",");
    append_number(&mut line, l.green as u32);
    line.append(",");
    append_number(&mut line, l.blue as u32);
    line.append(")\" stroke-width=\"1\"/>");
    proof {
        assert(line@ =~= noise_line_text(*l));
    }
    out.append(line.as_str());
}

fn render_term(out: &mut String, x: u32, rot: i32, value: u32)
    ensures
        final(out)@ == old(out)@ + term_text(x, rot, value),
{
    let mut t = String::new();
    t.append(TEXT_OPEN);
    append_number(&mut t, x);
    t.append(TEXT_STYLE);
    t.append(TEXT_ROTATE);
    let rot_chars = signed_decimal_of(rot);
    let rot_text = string_of(rot_chars.as_slice());
    t.append(rot_text.as_str());
    t.append(",");
    append_number(&mut t, x);
    t.append(TEXT_ROTATE_END);
    append_number(&mut t, value);
    t.append(TEXT_CLOSE);
    proof {
        assert(t@ =~= term_text(x, rot, value));
    }
    out.append(t.as_str());
}

fn render_sign(out: &mut String, x: u32, sign: &str)
    ensures
        final(out)@ == old(out)@ + sign_text(x, sign@),
{
    let mut t = String::new();
    t.append(TEXT_OPEN);
    append_number(&mut t, x);
    t.append(TEXT_STYLE);
    t.append(">");
    t.append(sign);
    t.append(TEXT_CLOSE);
    proof {
        assert(t@ =~= sign_text(x, sign@));
    }
    out.append(t.as_str());
}

/// The CAPTCHA page issued at `timestamp` with the numbers of `draw`.
pub fn render_captcha_page(
    client_ip: &str,
    secret: &str,
    original_path: &str,
    timestamp: u64,
    draw: &CaptchaDraw,
) -> (out: String)
    ensures
        out@ == captcha_page(client_ip@, secret@, original_path@, timestamp, *draw),
{
    let mut noise = String::new();
    let mut i: usize = 0;
    proof {
        assert(draw.noise@.take(0) =~= Seq::<NoiseLine>::empty());
    }
    while i < draw.noise.len()
        invariant
            i <= draw.noise.len(),
            noise@ == noise_text(draw.noise@.take(i as int)),
        decreases draw.noise.len() - i,
    {
        proof {
            assert(draw.noise@.take(i + 1).drop_last() =~= draw.noise@.take(i as int));
            assert(draw.noise@.take(i + 1).last() == draw.noise@[i as int]);
        }
        render_noise_line(&mut noise, &draw.noise[i]);
        i += 1;
    }
    proof {
        assert(draw.noise@.take(draw.noise.len() as int) =~= draw.noise@);
    }
    let mut sum = String::new();
    render_term(&mut sum, draw.a_x, draw.a_rot, draw.a);
    render_sign(&mut sum, draw.plus_x, "+");
    render_term(&mut sum, draw.b_x, draw.b_rot, draw.b);
    render_sign(&mut sum, draw.eq_x, "= ?");
    proof {
        assert(sum@ =~= sum_text(*draw));
    }
    let token = issue_token(client_ip, secret, timestamp, draw.a as u64 + draw.b as u64);

    let mut out = String::new();
    out.append(CAPTCHA_HEAD);
    out.append(noise.as_str());
    out.append("\n");
    out.append(sum.as_str());
    out.append(CAPTCHA_FORM);
    out.append(original_path);
    out.append(CAPTCHA_TOKEN_FIELD);
    out.append(token.as_str());
    out.append(CAPTCHA_PATH_FIELD);
    out.append(original_path);
    out.append(CAPTCHA_TAIL);
    proof {
        assert(out@ =~= captcha_page(client_ip@, secret@, original_path@, timestamp, *draw));
    }
    out
}

/// A new CAPTCHA page for a client: some page that [`render_captcha_page`]
/// writes at some time for numbers within their ranges.
pub fn generate_captcha_page(client_ip: &str, secret: &str, original_path: &str) -> (out: String)
    ensures
        exists|timestamp: u64, draw: CaptchaDraw|
            draw.in_range() && out@ == captcha_page(
                client_ip@,
                secret@,
                original_path@,
                timestamp,
                draw,
            ),
{
    let draw = draw_captcha();
    let now = unix_now_secs();
    render_captcha_page(client_ip, secret, original_path, now, &draw)
}

// ---------------------------------------------------------------------------
// Verifying
// ---------------------------------------------------------------------------

/// A CAPTCHA cookie is valid for a client at `now` when it has exactly five
/// fields, the first is the client's address, the second a timestamp no
/// older than `ttl_secs`, the fourth the tag of the first three under
/// `secret`, and the third the SHA-256 of the fifth.
pub open spec fn captcha_cookie_valid(
    cookie: Seq<char>,
    ip: Seq<char>,
    secret: Seq<char>,
    ttl_secs: u64,
    now: u64,
) -> bool {
    let parts = split(cookie, ':');
    &&& parts.len() == 5
    &&& parts[0] == ip
    &&& u64_of_text(parts[1]) is Some
    &&& age(now, u64_of_text(parts[1])->Some_0) <= ttl_secs
    &&& parts[3] == hmac_hex_of(secret, captcha_signed_text(parts[0], parts[1], parts[2]))
    &&& parts[2] == sha256_hex_of(parts[4])
}

/// Five fields without colons, joined by colons, split into those fields.
pub proof fn lemma_five_fields(
    a: Seq<char>,
    b: Seq<char>,
    c: Seq<char>,
    d: Seq<char>,
    e: Seq<char>,
)
    requires
        !a.contains(':'),
        !b.contains(':'),
        !c.contains(':'),
        !d.contains(':'),
        !e.contains(':'),
    ensures
        split(a + seq![':'] + b + seq![':'] + c + seq![':'] + d + seq![':'] + e, ':') == seq![
            a,
            b,
            c,
            d,
            e,
        ],
{
    crate::js_challenge::lemma_four_fields(a, b, c, d);
    let abcd = a + seq![':'] + b + seq![':'] + c + seq![':'] + d;
    crate::text::lemma_split_append_field(abcd, e, ':');
    assert(abcd.push(':') + e =~= abcd + seq![':'] + e);
    assert(seq![a, b, c, d].push(e) =~= seq![a, b, c, d, e]);
}

/// The cookie that the page sets when the client gives the right answer is
/// accepted: for a client whose address holds no colon, as long as the
/// CAPTCHA is no older than the time to live.
pub proof fn lemma_right_answer_accepted(
    ip: Seq<char>,
    secret: Seq<char>,
    timestamp: u64,
    answer: nat,
    ttl_secs: u64,
    now: u64,
)
    requires
        !ip.contains(':'),
        age(now, timestamp) <= ttl_secs,
    ensures
        captcha_cookie_valid(
            submitted_cookie(captcha_token(ip, secret, timestamp, answer), decimal_text(answer)),
            ip,
            secret,
            ttl_secs,
            now,
        ),
{
    let ts = decimal_text(timestamp as nat);
    let given = decimal_text(answer);
    let hash = sha256_hex_of(given);
    let signed = captcha_signed_text(ip, ts, hash);
    let tag = hmac_hex_of(secret, signed);
    crate::js_challenge::lemma_numbers_hold_no_colon(
        timestamp as nat,
        crate::digest::sha256_digest(crate::digest::utf8(given)),
    );
    crate::js_challenge::lemma_numbers_hold_no_colon(
        answer,
        crate::digest::hmac_sha256_tag(crate::digest::utf8(secret), crate::digest::utf8(signed)),
    );
    lemma_five_fields(ip, ts, hash, tag, given);
    crate::text::lemma_u64_text_round_trip(timestamp);
    assert(submitted_cookie(captcha_token(ip, secret, timestamp, answer), given) =~= ip + seq![':']
        + ts + seq![':'] + hash + seq![':'] + tag + seq![':'] + given);
}

/// A CAPTCHA cookie is bound to the address it was issued to: no cookie is
/// valid for two different clients.
pub proof fn lemma_captcha_bound_to_client(
    cookie: Seq<char>,
    ip: Seq<char>,
    other_ip: Seq<char>,
    secret: Seq<char>,
    ttl_secs: u64,
    now: u64,
)
    requires
        captcha_cookie_valid(cookie, ip, secret, ttl_secs, now),
        other_ip != ip,
    ensures
        !captcha_cookie_valid(cookie, other_ip, secret, ttl_secs, now),
{
}

/// A CAPTCHA cookie whose tag was altered is refused, whatever answer it
/// carries.
pub proof fn lemma_altered_captcha_tag_refused(
    ip: Seq<char>,
    secret: Seq<char>,
    timestamp: u64,
    answer: nat,
    altered_tag: Seq<char>,
    ttl_secs: u64,
    now: u64,
)
    requires
        !ip.contains(':'),
        !altered_tag.contains(':'),
        altered_tag != hmac_hex_of(
            secret,
            captcha_signed_text(
                ip,
                decimal_text(timestamp as nat),
                sha256_hex_of(decimal_text(answer)),
            ),
        ),
    ensures
        !captcha_cookie_valid(
            captcha_signed_text(
                ip,
                decimal_text(timestamp as nat),
                sha256_hex_of(decimal_text(answer)),
            ) + seq![':'] + altered_tag + seq![':'] + decimal_text(answer),
            ip,
            secret,
            ttl_secs,
            now,
        ),
{
    let ts = decimal_text(timestamp as nat);
    let given = decimal_text(answer);
    let hash = sha256_hex_of(given);
    crate::js_challenge::lemma_numbers_hold_no_colon(
        timestamp as nat,
        crate::digest::sha256_digest(crate::digest::utf8(given)),
    );
    crate::js_challenge::lemma_numbers_hold_no_colon(answer, Seq::<u8>::empty());
    lemma_five_fields(ip, ts, hash, altered_tag, given);
    assert(captcha_signed_text(ip, ts, hash) + seq![':'] + altered_tag + seq![':'] + given =~= ip
        + seq![':'] + ts + seq![':'] + hash + seq![':'] + altered_tag + seq![':'] + given);
}

/// A value that does not have exactly five fields, or whose second field is
/// no number that 64 bits hold, or whose third field is not the SHA-256 of
/// its fifth, is valid for nobody and at no time. So a wrong answer is
/// refused although address, timestamp and tag are intact.
pub proof fn lemma_malformed_captcha_refused(
    cookie: Seq<char>,
    ip: Seq<char>,
    secret: Seq<char>,
    ttl_secs: u64,
    now: u64,
)
    requires
        split(cookie, ':').len() != 5 || u64_of_text(split(cookie, ':')[1]) is None || split(
            cookie,
            ':',
        )[2] != sha256_hex_of(split(cookie, ':')[4]),
    ensures
        !captcha_cookie_valid(cookie, ip, secret, ttl_secs, now),
{
}

/// A valid cookie in which one character was changed is refused, where the
/// change puts a colon, removes one, or lies in the address, in the hash of
/// the answer or in the tag.
///
/// That a change inside the timestamp or inside the answer is refused rests
/// on the tags, or the hashes, of two different texts being different, which
/// is not stated here.
pub proof fn lemma_altered_captcha_refused(
    cookie: Seq<char>,
    i: int,
    c: char,
    ip: Seq<char>,
    secret: Seq<char>,
    ttl_secs: u64,
    now: u64,
)
    requires
        captcha_cookie_valid(cookie, ip, secret, ttl_secs, now),
        0 <= i < cookie.len(),
        c != cookie[i],
        c == ':' || cookie[i] == ':' || piece_index(cookie, ':', i) == 0 || piece_index(
            cookie,
            ':',
            i,
        ) == 2 || piece_index(cookie, ':', i) == 3,
    ensures
        !captcha_cookie_valid(cookie.update(i, c), ip, secret, ttl_secs, now),
{
    lemma_split_update(cookie, ':', i, c);
    if c != ':' && cookie[i] != ':' {
        let before = split(cookie, ':');
        let after = split(cookie.update(i, c), ':');
        let k = piece_index(cookie, ':', i);
        if k == 2 {
            assert(after[4] == before[4]);
        }
        if k == 3 {
            assert(after[0] == before[0]);
            assert(after[1] == before[1]);
            assert(after[2] == before[2]);
        }
    }
}

/// Whether `cookie_value` proves, at `now`, that `client_ip` solved a
/// CAPTCHA issued under `secret` no more than `ttl_secs` ago.
pub fn verify_captcha_cookie_at(
    cookie_value: &str,
    client_ip: &str,
    secret: &str,
    ttl_secs: u64,
    now: u64,
) -> (r: bool)
    ensures
        r == captcha_cookie_valid(cookie_value@, client_ip@, secret@, ttl_secs, now),
{
    let cookie = chars_of(cookie_value);
    let parts = split_on(cookie.as_slice(), ':');
    if parts.len() != 5 {
        return false;
    }
    proof {
        let v = crate::text::views(parts@);
        assert(v[0] == parts@[0]@);
        assert(v[1] == parts@[1]@);
        assert(v[2] == parts@[2]@);
        assert(v[3] == parts@[3]@);
        assert(v[4] == parts@[4]@);
    }
    let ip = chars_of(client_ip);
    if !(parts[0].len() == ip.len() && starts_with(parts[0].as_slice(), ip.as_slice())) {
        proof {
            if parts@[0]@ == ip@ {
                assert(ip@.is_prefix_of(parts@[0]@));
            }
        }
        return false;
    }
    proof {
        assert(parts@[0]@ =~= ip@);
    }
    let ts = match parse_u64(parts[1].as_slice()) {
        Some(v) => v,
        None => {
            return false;
        },
    };
    if now.saturating_sub(ts) > ttl_secs {
        return false;
    }
    let ts_text = string_of(parts[1].as_slice());
    let hash_text = string_of(parts[2].as_slice());
    let mut signed = String::new();
    signed.append(client_ip);
    signed.append(":");
    signed.append(ts_text.as_str());
    signed.append(":");
    signed.append(hash_text.as_str());
    proof {
        reveal_strlit(":");
        assert(signed@ =~= captcha_signed_text(parts@[0]@, parts@[1]@, parts@[2]@));
    }
    let expected = compute_hmac(secret, signed.as_str());
    let expected_chars = chars_of(expected.as_str());
    if !constant_time_eq(parts[3].as_slice(), expected_chars.as_slice()) {
        return false;
    }
    let answer_text = string_of(parts[4].as_slice());
    let answer_hash = sha256_hex_str(answer_text.as_str());
    let answer_hash_chars = chars_of(answer_hash.as_str());
    constant_time_eq(parts[2].as_slice(), answer_hash_chars.as_slice())
}

/// Whether `cookie_value` proves now that `client_ip` solved a CAPTCHA. The
/// answer is that of [`verify_captcha_cookie_at`] at the time the system
/// clock shows.
pub fn verify_captcha_cookie(cookie_value: &str, client_ip: &str, secret: &str, ttl_secs: u64) -> (r:
    bool)
    ensures
        exists|now: u64|
            r == captcha_cookie_valid(cookie_value@, client_ip@, secret@, ttl_secs, now),
{
    let now = unix_now_secs();
    verify_captcha_cookie_at(cookie_value, client_ip, secret, ttl_secs, now)
}

/// The decoded value of the CAPTCHA cookie in a `Cookie` header.
pub fn extract_captcha_cookie(cookie_header: &str) -> (r: Option<String>)
    ensures
        match r {
            Some(v) => cookie_in_header(cookie_header@, CAPTCHA_COOKIE_PREFIX@) == Some(v@),
            None => cookie_in_header(cookie_header@, CAPTCHA_COOKIE_PREFIX@) is None,
        },
{
    extract_cookie(cookie_header, CAPTCHA_COOKIE_PREFIX)
}

} // verus!
