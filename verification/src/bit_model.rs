//! The mathematical model of bits, bytes and 32-bit big-endian words that
//! the contracts of this crate are stated over.

use vstd::prelude::*;

verus! {

/// Bit `j` of `b`, counted from the most significant bit (`j == 0`) down to
/// the least significant one (`j == 7`).
pub open spec fn byte_bit(b: u8, j: int) -> bool {
    (b >> ((7 - j) as u8)) & 1 == 1
}

/// The byte whose bits, most significant first, are `x0, x1, ..., x7`.
pub open spec fn pack8(
    x0: bool,
    x1: bool,
    x2: bool,
    x3: bool,
    x4: bool,
    x5: bool,
    x6: bool,
    x7: bool,
) -> u8 {
    (if x0 { 0x80u8 } else { 0u8 }) | (if x1 { 0x40u8 } else { 0u8 })
        | (if x2 { 0x20u8 } else { 0u8 }) | (if x3 { 0x10u8 } else { 0u8 })
        | (if x4 { 0x08u8 } else { 0u8 }) | (if x5 { 0x04u8 } else { 0u8 })
        | (if x6 { 0x02u8 } else { 0u8 }) | (if x7 { 0x01u8 } else { 0u8 })
}

/// Every byte becomes eight bits, most significant first, bytes in order.
pub open spec fn bits_of_bytes(bytes: Seq<u8>) -> Seq<bool> {
    Seq::new(8 * bytes.len(), |i: int| byte_bit(bytes[i / 8], i % 8))
}

/// The bit at index `i`, or `false` where `i` lies outside `bits`.
pub open spec fn bit_or_false(bits: Seq<bool>, i: int) -> bool {
    0 <= i < bits.len() && bits[i]
}

/// The byte made of the eight bits that start at index `8 * k`, most
/// significant first; bits past the end of `bits` count as `false`.
pub open spec fn byte_at(bits: Seq<bool>, k: int) -> u8 {
    pack8(
        bit_or_false(bits, 8 * k),
        bit_or_false(bits, 8 * k + 1),
        bit_or_false(bits, 8 * k + 2),
        bit_or_false(bits, 8 * k + 3),
        bit_or_false(bits, 8 * k + 4),
        bit_or_false(bits, 8 * k + 5),
        bit_or_false(bits, 8 * k + 6),
        bit_or_false(bits, 8 * k + 7),
    )
}

/// Groups bits into bytes, eight at a time and most significant first; a
/// trailing group of fewer than eight bits is padded with `false`.
pub open spec fn bytes_of_bits(bits: Seq<bool>) -> Seq<u8> {
    Seq::new((bits.len() + 7) / 8, |k: int| byte_at(bits, k))
}

/// The four bytes of `n`, most significant byte first.
pub open spec fn be_bytes(n: u32) -> Seq<u8> {
    seq![(n >> 24) as u8, ((n >> 16) & 0xff) as u8, ((n >> 8) & 0xff) as u8, (n & 0xff) as u8]
}

/// The 32-bit word whose most significant byte is `bytes[0]` and whose
/// least significant byte is `bytes[3]`.
pub open spec fn be_value(bytes: Seq<u8>) -> u32 {
    ((bytes[0] as u32) << 24) | ((bytes[1] as u32) << 16) | ((bytes[2] as u32) << 8) | (
    bytes[3] as u32)
}

/// `v` with its lowest bit replaced by `bit`; the upper seven bits stay.
pub open spec fn with_lsb(v: u8, bit: bool) -> u8 {
    (v & 0xFE) | (if bit { 1u8 } else { 0u8 })
}

/// The lowest bit of `v`.
pub open spec fn lsb(v: u8) -> bool {
    v & 1 == 1
}

/// Packing the eight bits of a byte gives the byte back.
pub proof fn lemma_pack_byte_bits(b: u8)
    ensures
        pack8(
            byte_bit(b, 0),
            byte_bit(b, 1),
            byte_bit(b, 2),
            byte_bit(b, 3),
            byte_bit(b, 4),
            byte_bit(b, 5),
            byte_bit(b, 6),
            byte_bit(b, 7),
        ) == b,
{
    assert(pack8(
        (b >> 7u8) & 1 == 1,
        (b >> 6u8) & 1 == 1,
        (b >> 5u8) & 1 == 1,
        (b >> 4u8) & 1 == 1,
        (b >> 3u8) & 1 == 1,
        (b >> 2u8) & 1 == 1,
        (b >> 1u8) & 1 == 1,
        (b >> 0u8) & 1 == 1,
    ) == b) by (bit_vector);
}

/// The last bit of a byte is its lowest bit.
pub proof fn lemma_last_bit_is_lsb(b: u8)
    ensures
        byte_bit(b, 7) == lsb(b),
{
    assert(((b >> 0u8) & 1 == 1) == (b & 1 == 1)) by (bit_vector);
}

/// Replacing the last of a byte's eight bits replaces its lowest bit.
pub proof fn lemma_pack_with_last_bit(b: u8, bit: bool)
    ensures
        pack8(
            byte_bit(b, 0),
            byte_bit(b, 1),
            byte_bit(b, 2),
            byte_bit(b, 3),
            byte_bit(b, 4),
            byte_bit(b, 5),
            byte_bit(b, 6),
            bit,
        ) == with_lsb(b, bit),
{
    assert(pack8(
        (b >> 7u8) & 1 == 1,
        (b >> 6u8) & 1 == 1,
        (b >> 5u8) & 1 == 1,
        (b >> 4u8) & 1 == 1,
        (b >> 3u8) & 1 == 1,
        (b >> 2u8) & 1 == 1,
        (b >> 1u8) & 1 == 1,
        bit,
    ) == (b & 0xFE) | (if bit { 1u8 } else { 0u8 })) by (bit_vector);
}

/// Grouping the bits of a byte sequence gives the bytes back.
pub proof fn lemma_bytes_of_bits_of_bytes(bytes: Seq<u8>)
    ensures
        bytes_of_bits(bits_of_bytes(bytes)) == bytes,
{
    let bits = bits_of_bytes(bytes);
    assert forall|k: int| 0 <= k < bytes.len() implies byte_at(bits, k) == bytes[k] by {
        lemma_pack_byte_bits(bytes[k]);
    }
    assert(bytes_of_bits(bits) =~= bytes);
}

/// Reading back the big-endian bytes of a word gives the word.
pub proof fn lemma_be_value_of_be_bytes(n: u32)
    ensures
        be_value(be_bytes(n)) == n,
{
    assert((((n >> 24) as u8 as u32) << 24) | ((((n >> 16) & 0xff) as u8 as u32) << 16) | ((((n
        >> 8) & 0xff) as u8 as u32) << 8) | ((n & 0xff) as u8 as u32) == n) by (bit_vector);
}

/// The lowest bit of `with_lsb(v, bit)` is `bit`, and its upper seven bits
/// are those of `v`.
pub proof fn lemma_with_lsb(v: u8, bit: bool)
    ensures
        lsb(with_lsb(v, bit)) == bit,
        with_lsb(v, bit) & 0xFE == v & 0xFE,
        with_lsb(v, lsb(v)) == v,
{
    assert((((v & 0xFE) | (if bit { 1u8 } else { 0u8 })) & 1 == 1) == bit) by (bit_vector);
    assert(((v & 0xFE) | (if bit { 1u8 } else { 0u8 })) & 0xFE == v & 0xFE) by (bit_vector);
    assert((v & 0xFE) | (if v & 1 == 1 { 1u8 } else { 0u8 }) == v) by (bit_vector);
}

} // verus!
