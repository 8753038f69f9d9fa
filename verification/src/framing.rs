//! The wire layout of an embedded payload: a 32-bit big-endian length
//! prefix followed by the payload bytes, each expanded most significant bit
//! first.  There is no padding, terminator or checksum.

use crate::bit_model::{
    be_bytes, be_value, bits_of_bytes, bytes_of_bits, lemma_be_value_of_be_bytes,
    lemma_bytes_of_bits_of_bytes,
};
use crate::bits::{bit_vec_from_u32, combine_bit_vecs, u32_from_bit_vec};
use crate::bitvec_api::{
    bit_seq, bit_vec_from_bytes, bit_vec_get, bit_vec_len, bit_vec_new, bit_vec_push,
    bit_vec_to_bytes,
};
use crate::error::CodecError;
use bit_vec::BitVec;
use vstd::prelude::*;

verus! {

/// The number of bits of the length prefix.
pub const PREFIX_BITS: usize = 32;

/// The number of bits that a framed payload of `payload_len` bytes takes.
pub open spec fn framed_len(payload_len: nat) -> nat {
    32 + 8 * payload_len
}

/// The framed bit stream of `payload`: the 32 bits of its length, most
/// significant first, then the bits of its bytes.
pub open spec fn frame_bits(payload: Seq<u8>) -> Seq<bool> {
    bits_of_bytes(be_bytes(payload.len() as u32)) + bits_of_bytes(payload)
}

/// The payload length that the first 32 bits of `bits` announce.
pub open spec fn declared_len(bits: Seq<bool>) -> u32 {
    be_value(bytes_of_bits(bits.take(32)))
}

/// What unframing `bits` gives: the announced length and the payload bytes
/// that follow the prefix, or `TruncatedFrame` where `bits` is shorter than
/// the prefix plus the announced payload.  Bits after the payload are
/// ignored.
pub open spec fn unframe_spec(bits: Seq<bool>) -> Result<(u32, Seq<u8>), CodecError> {
    if bits.len() < 32 || bits.len() < framed_len(declared_len(bits) as nat) {
        Err(CodecError::TruncatedFrame)
    } else {
        Ok(
            (
                declared_len(bits),
                bytes_of_bits(bits.subrange(32, framed_len(declared_len(bits) as nat) as int)),
            ),
        )
    }
}

/// Builds the framed bit stream of `payload`.
pub fn frame(payload: &[u8]) -> (bits: BitVec)
    requires
        payload@.len() <= u32::MAX,
        framed_len(payload@.len()) <= usize::MAX,
    ensures
        bit_seq(bits) == frame_bits(payload@),
{
    let payload_size: u32 = payload.len() as u32;
    let size_bits = bit_vec_from_u32(payload_size);
    let payload_bits = bit_vec_from_bytes(payload);
    combine_bit_vecs(&size_bits, &payload_bits)
}

/// Splits a framed bit stream into the announced length and the payload.
pub fn unframe(bits: &BitVec) -> (r: Result<(u32, Vec<u8>), CodecError>)
    ensures
        match r {
            Ok((length, payload)) => unframe_spec(bit_seq(*bits)) == Ok::<
                (u32, Seq<u8>),
                CodecError,
            >((length, payload@)),
            Err(e) => unframe_spec(bit_seq(*bits)) == Err::<(u32, Seq<u8>), CodecError>(e),
        },
{
    let total = bit_vec_len(bits);
    if total < PREFIX_BITS {
        return Err(CodecError::TruncatedFrame);
    }
    let mut size_bits = bit_vec_new();
    let mut n: usize = 0;
    while n < PREFIX_BITS
        invariant
            n <= PREFIX_BITS <= total,
            total == bit_seq(*bits).len(),
            bit_seq(size_bits) == bit_seq(*bits).take(n as int),
        decreases PREFIX_BITS - n,
    {
        let bit = bit_vec_get(bits, n).unwrap();
        bit_vec_push(&mut size_bits, bit);
        n += 1;
    }
    let length = u32_from_bit_vec(&size_bits);
    if (total - PREFIX_BITS) / 8 < length as usize {
        return Err(CodecError::TruncatedFrame);
    }
    let end: usize = PREFIX_BITS + 8 * (length as usize);
    let mut payload_bits = bit_vec_new();
    let mut m: usize = PREFIX_BITS;
    while m < end
        invariant
            PREFIX_BITS <= m <= end <= total,
            total == bit_seq(*bits).len(),
            bit_seq(payload_bits) == bit_seq(*bits).subrange(PREFIX_BITS as int, m as int),
        decreases end - m,
    {
        let bit = bit_vec_get(bits, m).unwrap();
        bit_vec_push(&mut payload_bits, bit);
        m += 1;
    }
    Ok((length, bit_vec_to_bytes(&payload_bits)))
}

/// Unframing a framed payload gives the payload back, whatever bits follow
/// the frame.
pub proof fn lemma_unframe_frame(payload: Seq<u8>, rest: Seq<bool>)
    requires
        payload.len() <= u32::MAX,
    ensures
        frame_bits(payload).len() == framed_len(payload.len()),
        unframe_spec(frame_bits(payload) + rest) == Ok::<(u32, Seq<u8>), CodecError>(
            (payload.len() as u32, payload),
        ),
{
    let n = payload.len() as u32;
    let bits = frame_bits(payload) + rest;
    assert(bits.take(32) =~= bits_of_bytes(be_bytes(n)));
    lemma_bytes_of_bits_of_bytes(be_bytes(n));
    lemma_be_value_of_be_bytes(n);
    assert(declared_len(bits) == n);
    assert(bits.subrange(32, framed_len(n as nat) as int) =~= bits_of_bytes(payload));
    lemma_bytes_of_bits_of_bytes(payload);
}

} // verus!
