//! The watermark: 32 invisible characters, derived from the client address,
//! that mark the pages a client was served.

use crate::bits::{bit_of_byte, bits_of, bytes_of_bits, byte_of_bits, partial_byte};
use crate::digest::{hex_encode, hex_lower, sha256, sha256_digest, utf8};
use crate::text::{chars_of, is_space, is_whitespace, push_all, string_of};
use vstd::prelude::*;
use vstd::string::StrSliceExecFns;

verus! {

broadcast use vstd::string::group_string_axioms;

/// ZERO WIDTH SPACE, which stands for the bit 0.
pub const ZWC_ZERO: char = '\u{200B}';

/// ZERO WIDTH NON-JOINER, which stands for the bit 1.
pub const ZWC_ONE: char = '\u{200C}';

/// The most injections made into one document.
pub const MAX_INJECTIONS: usize = 5;

/// `core::str::Utf8Error`, the error of [`core::str::from_utf8`].
#[verifier::external_type_specification]
#[verifier::external_body]
pub struct ExUtf8Error(core::str::Utf8Error);

/// `core::str::from_utf8` succeeds on the byte strings that are well-formed
/// UTF-8, and on no others; the text it gives has exactly those bytes.
pub assume_specification[ core::str::from_utf8 ](v: &[u8]) -> (r: Result<
    &str,
    core::str::Utf8Error,
>)
    ensures
        r is Ok <==> vstd::utf8::valid_utf8(v@),
        r matches Ok(s) ==> utf8(s@) == v@,
;

/// The character that stands for a bit.
pub open spec fn marker(bit: bool) -> char {
    if bit {
        ZWC_ONE
    } else {
        ZWC_ZERO
    }
}

/// The watermark for a digest: its first 32 bits as marker characters.
pub open spec fn watermark_of_digest(digest: Seq<u8>) -> Seq<char> {
    Seq::new(32, |i: int| marker(bits_of(digest)[i]))
}

/// The watermark of a client: that of the SHA-256 digest of its address.
pub open spec fn watermark_of(ip: Seq<char>) -> Seq<char> {
    watermark_of_digest(sha256_digest(utf8(ip)))
}

/// The watermark of a client address.
pub fn generate_watermark(client_ip: &str) -> (out: Vec<char>)
    ensures
        out@ == watermark_of(client_ip@),
        out@.len() == 32,
{
    let digest = sha256(client_ip.as_bytes());
    let mut out: Vec<char> = Vec::new();
    let mut i: usize = 0;
    while i < 4
        invariant
            i <= 4,
            digest@.len() == 32,
            out@.len() == 8 * i,
            forall|k: int| 0 <= k < out@.len() ==> out@[k] == marker(bits_of(digest@)[k]),
        decreases 4 - i,
    {
        let byte = digest[i];
        let mut j: usize = 0;
        while j < 8
            invariant
                j <= 8,
                i < 4,
                digest@.len() == 32,
                byte == digest@[i as int],
                out@.len() == 8 * i + j,
                forall|k: int| 0 <= k < out@.len() ==> out@[k] == marker(bits_of(digest@)[k]),
            decreases 8 - j,
        {
            let set = bit_of_byte(byte, j);
            proof {
                let k = 8 * i + j;
                assert(k / 8 == i as int);
                assert(k % 8 == j as int);
                assert(bits_of(digest@)[k as int] == set);
            }
            if set {
                out.push(ZWC_ONE);
            } else {
                out.push(ZWC_ZERO);
            }
            j += 1;
        }
        i += 1;
    }
    proof {
        assert(out@ =~= watermark_of(client_ip@));
    }
    out
}

// ---------------------------------------------------------------------------
// Injection
// ---------------------------------------------------------------------------

/// A watermark can go in after index `i`: a `>` stands there, and the next
/// character is neither `<` nor white space.
pub open spec fn is_site(s: Seq<char>, i: int) -> bool {
    &&& 0 <= i
    &&& i + 1 < s.len()
    &&& s[i] == '>'
    &&& s[i + 1] != '<'
    &&& !is_space(s[i + 1])
}

/// `s` has a place for a watermark.
pub open spec fn has_site(s: Seq<char>) -> bool {
    exists|i: int| is_site(s, i)
}

/// `s` with the watermark after each of its first `budget` sites.
pub open spec fn watermarked(s: Seq<char>, mark: Seq<char>, budget: nat) -> Seq<char>
    decreases s.len(),
{
    if s.len() == 0 {
        Seq::<char>::empty()
    } else if budget > 0 && is_site(s, 0) {
        seq![s[0]] + mark + watermarked(s.drop_first(), mark, (budget - 1) as nat)
    } else {
        seq![s[0]] + watermarked(s.drop_first(), mark, budget)
    }
}

/// The text of a document with the watermark of a client after each of its
/// first five sites.
pub open spec fn watermarked_text(text: Seq<char>, ip: Seq<char>) -> Seq<char> {
    watermarked(text, watermark_of(ip), MAX_INJECTIONS as nat)
}

/// Puts `mark` after each of the first five sites of `text`; `None` where
/// there is no site.
pub fn inject_marks(text: &[char], mark: &[char]) -> (r: Option<Vec<char>>)
    ensures
        match r {
            Some(out) => has_site(text@) && out@ == watermarked(
                text@,
                mark@,
                MAX_INJECTIONS as nat,
            ),
            None => !has_site(text@),
        },
{
    let mut out: Vec<char> = Vec::new();
    let mut count: usize = 0;
    let mut i: usize = 0;
    proof {
        assert(text@.skip(0) =~= text@);
    }
    while i < text.len()
        invariant
            i <= text.len(),
            count <= MAX_INJECTIONS,
            watermarked(text@, mark@, MAX_INJECTIONS as nat) == out@ + watermarked(
                text@.skip(i as int),
                mark@,
                (MAX_INJECTIONS - count) as nat,
            ),
            count == 0 ==> forall|k: int| 0 <= k < i ==> !is_site(text@, k),
            count > 0 ==> has_site(text@),
        decreases text.len() - i,
    {
        let c = text[i];
        let ghost rest = text@.skip(i as int);
        let ghost before = out@;
        let ghost count_before = count;
        proof {
            assert(rest[0] == c);
            assert(rest.drop_first() =~= text@.skip(i + 1));
            if i + 1 < text.len() {
                assert(rest[1] == text@[i + 1]);
            }
            assert(is_site(rest, 0) == is_site(text@, i as int));
        }
        let site = c == '>' && i + 1 < text.len() && text[i + 1] != '<' && !is_whitespace(
            text[i + 1],
        );
        out.push(c);
        if site && count < MAX_INJECTIONS {
            push_all(&mut out, mark);
            count += 1;
            proof {
                assert(out@ =~= before + (seq![c] + mark@));
                assert(is_site(text@, i as int));
            }
        } else {
            proof {
                assert(out@ =~= before + seq![c]);
            }
        }
        proof {
            assert(out@ + watermarked(text@.skip(i + 1), mark@, (MAX_INJECTIONS - count) as nat)
                =~= before + watermarked(rest, mark@, (MAX_INJECTIONS - count_before) as nat));
        }
        i += 1;
    }
    proof {
        assert(text@.skip(text.len() as int) =~= Seq::<char>::empty());
        assert(out@ + Seq::<char>::empty() =~= out@);
    }
    if count == 0 {
        None
    } else {
        Some(out)
    }
}

/// Marks an HTML document with the watermark of a client: the watermark
/// goes in after each of the first five `>` that text follows. `None` where
/// the body is not UTF-8 or has no such place.
pub fn inject_zero_width_chars(body: &[u8], client_ip: &str) -> (r: Option<Vec<u8>>)
    ensures
        match r {
            Some(out) => {
                &&& vstd::utf8::valid_utf8(body@)
                &&& has_site(vstd::utf8::decode_utf8(body@))
                &&& out@ == utf8(watermarked_text(vstd::utf8::decode_utf8(body@), client_ip@))
            },
            None => !vstd::utf8::valid_utf8(body@) || !has_site(vstd::utf8::decode_utf8(body@)),
        },
{
    let text = match core::str::from_utf8(body) {
        Ok(s) => s,
        Err(_) => {
            return None;
        },
    };
    proof {
        vstd::utf8::encode_utf8_decode_utf8(text@);
    }
    let chars = chars_of(text);
    let mark = generate_watermark(client_ip);
    match inject_marks(chars.as_slice(), mark.as_slice()) {
        Some(out) => {
            let s = string_of(out.as_slice());
            Some(s.as_str().as_bytes_vec())
        },
        None => None,
    }
}

// ---------------------------------------------------------------------------
// Extraction
// ---------------------------------------------------------------------------

/// The bits that the marker characters of a text write, in order; every
/// other character is passed over.
pub open spec fn marker_bits(s: Seq<char>) -> Seq<bool>
    decreases s.len(),
{
    if s.len() == 0 {
        Seq::<bool>::empty()
    } else if s.last() == ZWC_ZERO {
        marker_bits(s.drop_last()).push(false)
    } else if s.last() == ZWC_ONE {
        marker_bits(s.drop_last()).push(true)
    } else {
        marker_bits(s.drop_last())
    }
}

/// The watermark that a text carries: the first 32 bits its marker
/// characters write, as eight hexadecimal digits; none where it holds fewer
/// than 32 marker characters.
pub open spec fn extracted(s: Seq<char>) -> Option<Seq<char>> {
    if marker_bits(s).len() < 32 {
        None
    } else {
        Some(hex_lower(bytes_of_bits(marker_bits(s).take(32))))
    }
}

/// The marker bits of the start of a text begin the marker bits of the
/// whole.
pub proof fn lemma_marker_bits_prefix(s: Seq<char>, k: int)
    requires
        0 <= k <= s.len(),
    ensures
        marker_bits(s.take(k)).is_prefix_of(marker_bits(s)),
    decreases s.len() - k,
{
    if k == s.len() {
        assert(s.take(k) =~= s);
    } else {
        lemma_marker_bits_prefix(s, k + 1);
        assert(s.take(k + 1).drop_last() =~= s.take(k));
    }
}

/// Reads the watermark out of a text.
pub fn extract_watermark(text: &str) -> (r: Option<String>)
    ensures
        match r {
            Some(hex) => extracted(text@) == Some(hex@),
            None => extracted(text@) is None,
        },
{
    let chars = chars_of(text);
    let mut bits: Vec<bool> = Vec::new();
    let mut i: usize = 0;
    proof {
        assert(chars@.take(0) =~= Seq::<char>::empty());
    }
    while i < chars.len() && bits.len() < 32
        invariant
            i <= chars.len(),
            bits@ == marker_bits(chars@.take(i as int)),
            bits@.len() <= 32,
        decreases chars.len() - i,
    {
        let c = chars[i];
        proof {
            assert(chars@.take(i + 1).drop_last() =~= chars@.take(i as int));
            assert(chars@.take(i + 1).last() == c);
        }
        if c == ZWC_ZERO {
            bits.push(false);
        } else if c == ZWC_ONE {
            bits.push(true);
        }
        i += 1;
    }
    proof {
        lemma_marker_bits_prefix(chars@, i as int);
        if i == chars.len() {
            assert(chars@.take(i as int) =~= chars@);
        }
    }
    if bits.len() < 32 {
        return None;
    }
    proof {
        assert(bits@ =~= marker_bits(text@).take(32));
    }
    let mut bytes: Vec<u8> = Vec::new();
    let mut k: usize = 0;
    while k < 4
        invariant
            k <= 4,
            bits@.len() == 32,
            bytes@ == bytes_of_bits(bits@).take(k as int),
        decreases 4 - k,
    {
        let mut byte: u8 = 0;
        let mut j: usize = 0;
        let ghost group = bits@.subrange(8 * k, 8 * k + 8);
        while j < 8
            invariant
                j <= 8,
                k < 4,
                bits@.len() == 32,
                group == bits@.subrange(8 * k, 8 * k + 8),
                byte as int == (if j == 0 {
                    0int
                } else {
                    partial_byte(group, j as int)
                }),
                j < 8 ==> byte < 128,
            decreases 8 - j,
        {
            let bit = bits[8 * k + j];
            proof {
                assert(group[j as int] == bit);
                reveal_with_fuel(partial_byte, 9);
            }
            byte = byte * 2 + (if bit {
                1u8
            } else {
                0u8
            });
            j += 1;
        }
        proof {
            reveal_with_fuel(partial_byte, 9);
            assert(byte as int == byte_of_bits(group));
            assert(bytes@.push(byte) =~= bytes_of_bits(bits@).take(k + 1));
        }
        bytes.push(byte);
        k += 1;
    }
    proof {
        assert(bytes_of_bits(bits@).take(4) =~= bytes_of_bits(bits@));
    }
    Some(hex_encode(bytes.as_slice()))
}

/// The marker bits of two texts joined are those of the first followed by
/// those of the second.
pub proof fn lemma_marker_bits_concat(a: Seq<char>, b: Seq<char>)
    ensures
        marker_bits(a + b) == marker_bits(a) + marker_bits(b),
    decreases b.len(),
{
    if b.len() == 0 {
        assert(a + b =~= a);
        assert(marker_bits(a) + marker_bits(b) =~= marker_bits(a));
    } else {
        lemma_marker_bits_concat(a, b.drop_last());
        assert((a + b).drop_last() =~= a + b.drop_last());
        assert((a + b).last() == b.last());
        if b.last() == ZWC_ZERO {
            assert(marker_bits(a + b) =~= marker_bits(a) + marker_bits(b));
        } else if b.last() == ZWC_ONE {
            assert(marker_bits(a + b) =~= marker_bits(a) + marker_bits(b));
        }
    }
}

/// The marker bits of a text made of markers are the bits the markers
/// stand for.
pub proof fn lemma_marker_bits_of_markers(bits: Seq<bool>)
    ensures
        marker_bits(bits.map_values(|b: bool| marker(b))) == bits,
    decreases bits.len(),
{
    let text = bits.map_values(|b: bool| marker(b));
    if bits.len() > 0 {
        lemma_marker_bits_of_markers(bits.drop_last());
        assert(text.drop_last() =~= bits.drop_last().map_values(|b: bool| marker(b)));
        assert(text.last() == marker(bits.last()));
        assert(marker_bits(text.drop_last()).push(bits.last()) =~= bits);
    } else {
        assert(marker_bits(text) =~= bits);
    }
}

/// A text without marker characters writes no bits.
pub proof fn lemma_no_markers_no_bits(s: Seq<char>)
    requires
        !s.contains(ZWC_ZERO),
        !s.contains(ZWC_ONE),
    ensures
        marker_bits(s).len() == 0,
    decreases s.len(),
{
    if s.len() > 0 {
        assert(s[s.len() - 1] == s.last());
        assert(!s.drop_last().contains(ZWC_ZERO)) by {
            if s.drop_last().contains(ZWC_ZERO) {
                let i = choose|i: int| 0 <= i < s.drop_last().len() && s.drop_last()[i] == ZWC_ZERO;
                assert(s[i] == ZWC_ZERO);
            }
        }
        assert(!s.drop_last().contains(ZWC_ONE)) by {
            if s.drop_last().contains(ZWC_ONE) {
                let i = choose|i: int| 0 <= i < s.drop_last().len() && s.drop_last()[i] == ZWC_ONE;
                assert(s[i] == ZWC_ONE);
            }
        }
        lemma_no_markers_no_bits(s.drop_last());
    }
}

/// A marked text begins with the text up to its first site, followed by
/// the mark.
pub proof fn lemma_watermarked_begins(s: Seq<char>, mark: Seq<char>, budget: nat, first: int)
    requires
        budget > 0,
        is_site(s, first),
        forall|k: int| 0 <= k < first ==> !is_site(s, k),
    ensures
        (s.take(first + 1) + mark).is_prefix_of(watermarked(s, mark, budget)),
    decreases first,
{
    let rest = s.drop_first();
    if first == 0 {
        let tail = watermarked(rest, mark, (budget - 1) as nat);
        assert(watermarked(s, mark, budget) == seq![s[0]] + mark + tail);
        assert(s.take(1) =~= seq![s[0]]);
        assert((seq![s[0]] + mark + tail).take((1 + mark.len()) as int) =~= seq![s[0]] + mark);
    } else {
        assert(!is_site(s, 0));
        assert(is_site(rest, first - 1)) by {
            assert(rest[first - 1] == s[first]);
            assert(rest[first] == s[first + 1]);
        }
        assert forall|k: int| 0 <= k < first - 1 implies !is_site(rest, k) by {
            assert(rest[k] == s[k + 1]);
            assert(rest[k + 1] == s[k + 2]);
            assert(!is_site(s, k + 1));
        }
        lemma_watermarked_begins(rest, mark, budget, first - 1);
        let inner = watermarked(rest, mark, budget);
        let head = rest.take(first) + mark;
        assert(watermarked(s, mark, budget) == seq![s[0]] + inner);
        assert(s.take(first + 1) =~= seq![s[0]] + rest.take(first));
        assert(inner.take(head.len() as int) == head);
        assert((seq![s[0]] + inner).take((1 + head.len()) as int) =~= seq![s[0]] + head);
        assert(s.take(first + 1) + mark =~= seq![s[0]] + head);
    }
}

/// The watermark read out of a marked document is the first four bytes of
/// the SHA-256 digest of the client address, in hexadecimal: where the
/// document has a site, and holds no marker character of its own up to the
/// first one.
pub proof fn lemma_watermark_round_trip(text: Seq<char>, ip: Seq<char>, first: int)
    requires
        sha256_digest(utf8(ip)).len() == 32,
        is_site(text, first),
        forall|k: int| 0 <= k < first ==> !is_site(text, k),
        !text.take(first + 1).contains(ZWC_ZERO),
        !text.take(first + 1).contains(ZWC_ONE),
    ensures
        extracted(watermarked_text(text, ip)) == Some(hex_lower(sha256_digest(utf8(ip)).take(4))),
{
    let digest = sha256_digest(utf8(ip));
    let mark = watermark_of(ip);
    let bits = bits_of(digest).take(32);
    let out = watermarked_text(text, ip);
    let head = text.take(first + 1);
    lemma_watermarked_begins(text, mark, MAX_INJECTIONS as nat, first);
    let start = head + mark;
    assert(out.take(start.len() as int) == start);
    lemma_marker_bits_prefix(out, start.len() as int);
    lemma_marker_bits_concat(head, mark);
    lemma_no_markers_no_bits(head);
    assert(mark =~= bits.map_values(|b: bool| marker(b)));
    lemma_marker_bits_of_markers(bits);
    assert(marker_bits(start) =~= bits);
    assert(marker_bits(out).take(32) =~= bits);
    assert(bytes_of_bits(bits) =~= digest.take(4)) by {
        assert(bytes_of_bits(bits).len() == 4);
        assert forall|i: int| 0 <= i < 4 implies bytes_of_bits(bits)[i] == digest.take(4)[i] by {
            let group = bits.subrange(8 * i, 8 * i + 8);
            assert(group =~= crate::bits::bits_of_byte(digest[i])) by {
                assert forall|j: int| 0 <= j < 8 implies group[j] == crate::bits::bits_of_byte(
                    digest[i],
                )[j] by {
                    assert(group[j] == bits[8 * i + j]);
                    assert((8 * i + j) / 8 == i);
                    assert((8 * i + j) % 8 == j);
                }
            }
            crate::bits::lemma_byte_round_trip(digest[i]);
        }
    }
}

} // verus!
