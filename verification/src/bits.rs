//! Single-bit and bit-vector helpers shared by framing and the codec.

use crate::bit_model::{
    be_bytes, be_value, bits_of_bytes, bytes_of_bits, lemma_last_bit_is_lsb,
    lemma_pack_with_last_bit, lsb, with_lsb,
};
use crate::bitvec_api::{
    bit_seq, bit_vec_from_bytes, bit_vec_get, bit_vec_len, bit_vec_new, bit_vec_push, bit_vec_set,
    bit_vec_to_bytes,
};
use crate::byteorder_api::{read_u32_be, write_u32_be};
use bit_vec::BitVec;
use vstd::prelude::*;

verus! {

/// Replaces the lowest bit of `byte` by `bit` and keeps the other seven.
pub fn modify_last_bit(byte: u8, bit: bool) -> (r: u8)
    ensures
        r == with_lsb(byte, bit),
{
    let one = [byte];
    let mut bv = bit_vec_from_bytes(one.as_slice());
    bit_vec_set(&mut bv, 7, bit);
    let bytes = bit_vec_to_bytes(&bv);
    proof {
        lemma_pack_with_last_bit(byte, bit);
    }
    bytes[0]
}

/// The lowest bit of `byte`.
pub fn get_last_bit(byte: u8) -> (r: bool)
    ensures
        r == lsb(byte),
{
    let one = [byte];
    let bv = bit_vec_from_bytes(one.as_slice());
    proof {
        lemma_last_bit_is_lsb(byte);
    }
    bit_vec_get(&bv, 7).unwrap()
}

/// A new bit vector that holds the bits of `a` followed by the bits of `b`.
pub fn combine_bit_vecs(a: &BitVec, b: &BitVec) -> (combined: BitVec)
    requires
        bit_seq(*a).len() + bit_seq(*b).len() <= usize::MAX,
    ensures
        bit_seq(combined) == bit_seq(*a) + bit_seq(*b),
{
    let mut combined = bit_vec_new();
    let a_len = bit_vec_len(a);
    let b_len = bit_vec_len(b);
    let mut i: usize = 0;
    while i < a_len
        invariant
            i <= a_len,
            a_len == bit_seq(*a).len(),
            a_len + b_len <= usize::MAX,
            bit_seq(combined) == bit_seq(*a).take(i as int),
        decreases a_len - i,
    {
        let bit = bit_vec_get(a, i).unwrap();
        bit_vec_push(&mut combined, bit);
        i += 1;
    }
    let mut k: usize = 0;
    while k < b_len
        invariant
            k <= b_len,
            a_len == bit_seq(*a).len(),
            b_len == bit_seq(*b).len(),
            a_len + b_len <= usize::MAX,
            bit_seq(combined) == bit_seq(*a) + bit_seq(*b).take(k as int),
        decreases b_len - k,
    {
        let bit = bit_vec_get(b, k).unwrap();
        bit_vec_push(&mut combined, bit);
        k += 1;
    }
    combined
}

/// The 32 bits of `x`, most significant first.
pub fn bit_vec_from_u32(x: u32) -> (bits: BitVec)
    ensures
        bit_seq(bits) == bits_of_bytes(be_bytes(x)),
{
    let mut bytes: Vec<u8> = Vec::new();
    write_u32_be(&mut bytes, x);
    bit_vec_from_bytes(bytes.as_slice())
}

/// The 32-bit word whose bits, most significant first, are the first 32
/// bits of `bits`.
pub fn u32_from_bit_vec(bits: &BitVec) -> (x: u32)
    requires
        bit_seq(*bits).len() >= 32,
    ensures
        x == be_value(bytes_of_bits(bit_seq(*bits))),
{
    let bytes = bit_vec_to_bytes(bits);
    read_u32_be(bytes)
}

} // verus!
