//! Bytes as sequences of bits, the most significant bit first.

use vstd::prelude::*;

verus! {

/// The eight bits of a byte, the most significant first.
pub open spec fn bits_of_byte(b: u8) -> Seq<bool> {
    seq![
        b / 128 % 2 == 1,
        b / 64 % 2 == 1,
        b / 32 % 2 == 1,
        b / 16 % 2 == 1,
        b / 8 % 2 == 1,
        b / 4 % 2 == 1,
        b / 2 % 2 == 1,
        b % 2 == 1,
    ]
}

/// The bits of a byte string, eight for each byte.
pub open spec fn bits_of(bytes: Seq<u8>) -> Seq<bool> {
    Seq::new(8 * bytes.len(), |i: int| bits_of_byte(bytes[i / 8])[i % 8])
}

/// 1 for a set bit, 0 for a clear one.
pub open spec fn bit_value(b: bool) -> int {
    if b {
        1
    } else {
        0
    }
}

/// The byte that eight bits write, the most significant first.
pub open spec fn byte_of_bits(bits: Seq<bool>) -> int {
    128 * bit_value(bits[0]) + 64 * bit_value(bits[1]) + 32 * bit_value(bits[2]) + 16 * bit_value(
        bits[3],
    ) + 8 * bit_value(bits[4]) + 4 * bit_value(bits[5]) + 2 * bit_value(bits[6]) + bit_value(
        bits[7],
    )
}

/// The bytes that a sequence of bits writes; bits beyond the last full
/// group of eight are left out.
pub open spec fn bytes_of_bits(bits: Seq<bool>) -> Seq<u8> {
    Seq::new(bits.len() / 8, |i: int| byte_of_bits(bits.subrange(8 * i, 8 * i + 8)) as u8)
}

/// Reading the bits of a byte and writing them again gives the byte.
pub proof fn lemma_byte_round_trip(b: u8)
    ensures
        byte_of_bits(bits_of_byte(b)) == b,
{
    assert(b == 128 * (b / 128 % 2) + 64 * (b / 64 % 2) + 32 * (b / 32 % 2) + 16 * (b / 16 % 2) + 8
        * (b / 8 % 2) + 4 * (b / 4 % 2) + 2 * (b / 2 % 2) + b % 2) by (bit_vector);
    let bits = bits_of_byte(b);
    assert(bit_value(bits[0]) == b / 128 % 2);
    assert(bit_value(bits[1]) == b / 64 % 2);
    assert(bit_value(bits[2]) == b / 32 % 2);
    assert(bit_value(bits[3]) == b / 16 % 2);
    assert(bit_value(bits[4]) == b / 8 % 2);
    assert(bit_value(bits[5]) == b / 4 % 2);
    assert(bit_value(bits[6]) == b / 2 % 2);
    assert(bit_value(bits[7]) == b % 2);
}

/// The number that the first `n` bits of a group write.
pub open spec fn partial_byte(bits: Seq<bool>, n: int) -> int
    decreases n,
{
    if n <= 0 {
        0
    } else {
        2 * partial_byte(bits, n - 1) + bit_value(bits[n - 1])
    }
}

/// Bit `j` of `b`, counted from the most significant.
pub fn bit_of_byte(b: u8, j: usize) -> (r: bool)
    requires
        j < 8,
    ensures
        r == bits_of_byte(b)[j as int],
{
    if j == 0 {
        b / 128 % 2 == 1
    } else if j == 1 {
        b / 64 % 2 == 1
    } else if j == 2 {
        b / 32 % 2 == 1
    } else if j == 3 {
        b / 16 % 2 == 1
    } else if j == 4 {
        b / 8 % 2 == 1
    } else if j == 5 {
        b / 4 % 2 == 1
    } else if j == 6 {
        b / 2 % 2 == 1
    } else {
        b % 2 == 1
    }
}

} // verus!
