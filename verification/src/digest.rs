//! SHA-256, HMAC-SHA256 and hexadecimal text.
//!
//! The two hash functions are computed by the `sha2` and `hmac` crates; what
//! they return is known here only by name. Everything built on top of them
//! (hexadecimal digests, comparison of tags) is stated exactly.

use hmac::Mac;
use sha2::Digest;
use vstd::prelude::*;

verus! {

/// The SHA-256 digest of a byte string, as the `sha2` crate computes it.
pub uninterp spec fn sha256_digest(data: Seq<u8>) -> Seq<u8>;

/// The HMAC-SHA256 tag of `msg` under `key`, as the `hmac` crate computes it.
pub uninterp spec fn hmac_sha256_tag(key: Seq<u8>, msg: Seq<u8>) -> Seq<u8>;

/// The UTF-8 bytes of a text.
pub open spec fn utf8(s: Seq<char>) -> Seq<u8> {
    vstd::utf8::encode_utf8(s)
}

/// The lower-case hexadecimal digit for `n < 16`.
pub open spec fn hex_digit(n: int) -> char {
    if n < 10 {
        ((n + 48) as u8) as char
    } else {
        ((n + 87) as u8) as char
    }
}

/// The lower-case hexadecimal writing of a byte string, two digits a byte,
/// the high half first.
pub open spec fn hex_lower(data: Seq<u8>) -> Seq<char> {
    Seq::new(
        2 * data.len(),
        |i: int|
            if i % 2 == 0 {
                hex_digit(data[i / 2] as int / 16)
            } else {
                hex_digit(data[i / 2] as int % 16)
            },
    )
}

/// `c` is one of `0`..`9`, `a`..`f`.
pub open spec fn is_hex_lower_digit(c: char) -> bool {
    ('0' <= c <= '9') || ('a' <= c <= 'f')
}

/// Hexadecimal text holds nothing but hexadecimal digits.
pub proof fn lemma_hex_lower_digits(data: Seq<u8>)
    ensures
        hex_lower(data).len() == 2 * data.len(),
        forall|i: int|
            0 <= i < hex_lower(data).len() ==> is_hex_lower_digit(#[trigger] hex_lower(data)[i]),
{
}

/// Hexadecimal text holds none of the characters outside `0-9a-f`.
pub proof fn lemma_hex_lower_lacks(data: Seq<u8>, c: char)
    requires
        !is_hex_lower_digit(c),
    ensures
        !hex_lower(data).contains(c),
{
    lemma_hex_lower_digits(data);
}

/// `sha2::Sha256::digest`: the digest of `data`, which is 32 bytes long.
#[verifier::external_body]
pub(crate) fn sha256(data: &[u8]) -> (out: Vec<u8>)
    ensures
        out@ == sha256_digest(data@),
        out@.len() == 32,
{
    sha2::Sha256::digest(data).to_vec()
}

/// `hmac::Hmac<Sha256>`: the tag of `msg` under `key`, which is 32 bytes
/// long. HMAC accepts a key of any length.
#[verifier::external_body]
pub(crate) fn hmac_sha256(key: &[u8], msg: &[u8]) -> (out: Vec<u8>)
    ensures
        out@ == hmac_sha256_tag(key@, msg@),
        out@.len() == 32,
{
    let mut mac = hmac::Hmac::<sha2::Sha256>::new_from_slice(key).expect("HMAC takes a key of any length");
    mac.update(msg);
    mac.finalize().into_bytes().to_vec()
}

/// `hex::encode`: two lower-case hexadecimal digits for each byte.
#[verifier::external_body]
pub(crate) fn hex_encode(data: &[u8]) -> (out: String)
    ensures
        out@ == hex_lower(data@),
{
    hex::encode(data)
}

/// The hexadecimal SHA-256 digest of a text's UTF-8 bytes.
pub open spec fn sha256_hex_of(s: Seq<char>) -> Seq<char> {
    hex_lower(sha256_digest(utf8(s)))
}

/// The hexadecimal HMAC-SHA256 tag of a text under a secret, both taken as
/// UTF-8 bytes.
pub open spec fn hmac_hex_of(secret: Seq<char>, msg: Seq<char>) -> Seq<char> {
    hex_lower(hmac_sha256_tag(utf8(secret), utf8(msg)))
}

/// The hexadecimal SHA-256 digest of `data`.
pub fn sha256_hex(data: &[u8]) -> (out: String)
    ensures
        out@ == hex_lower(sha256_digest(data@)),
        out@.len() == 64,
{
    let d = sha256(data);
    hex_encode(d.as_slice())
}

/// The hexadecimal SHA-256 digest of the UTF-8 bytes of `s`.
pub fn sha256_hex_str(s: &str) -> (out: String)
    ensures
        out@ == sha256_hex_of(s@),
        out@.len() == 64,
{
    sha256_hex(s.as_bytes())
}

/// The hexadecimal HMAC-SHA256 tag of `msg` under `secret`.
pub fn compute_hmac(secret: &str, msg: &str) -> (out: String)
    ensures
        out@ == hmac_hex_of(secret@, msg@),
        out@.len() == 64,
{
    let tag = hmac_sha256(secret.as_bytes(), msg.as_bytes());
    hex_encode(tag.as_slice())
}

/// Compares two texts without stopping at the first difference: every
/// position is read whatever the earlier ones held.
pub fn constant_time_eq(a: &[char], b: &[char]) -> (r: bool)
    ensures
        r == (a@ == b@),
{
    if a.len() != b.len() {
        return false;
    }
    let mut diff: u32 = 0;
    let mut i: usize = 0;
    proof {
        assert(a@.take(0) =~= b@.take(0));
    }
    while i < a.len()
        invariant
            i <= a.len(),
            a.len() == b.len(),
            (diff == 0) == (a@.take(i as int) == b@.take(i as int)),
        decreases a.len() - i,
    {
        let x: u32 = a[i] as u32;
        let y: u32 = b[i] as u32;
        let ghost before = diff;
        diff = diff | (x ^ y);
        proof {
            assert(((before | (x ^ y)) == 0) == (before == 0 && x == y)) by (bit_vector);
            assert(a@.take(i + 1) =~= a@.take(i as int).push(a@[i as int]));
            assert(b@.take(i + 1) =~= b@.take(i as int).push(b@[i as int]));
            if a@.take(i + 1) == b@.take(i + 1) {
                assert(a@.take(i + 1).drop_last() =~= a@.take(i as int));
                assert(b@.take(i + 1).drop_last() =~= b@.take(i as int));
                assert(a@.take(i + 1).last() == b@.take(i + 1).last());
            }
            if x == y {
                vstd::utf8::char_u32_cast(a@[i as int], x);
                vstd::utf8::char_u32_cast(b@[i as int], y);
            }
        }
        i += 1;
    }
    proof {
        assert(a@.take(a.len() as int) =~= a@);
        assert(b@.take(b.len() as int) =~= b@);
    }
    diff == 0
}

} // verus!
