//! The part of the `bit_vec` crate that this library builds on.
//!
//! Nothing in this file is proved.  Each function below makes one call into
//! `bit_vec`, and its contract records what that crate documents for the
//! call, stated over the sequence of bits the vector holds.

use crate::bit_model::{bits_of_bytes, bytes_of_bits};
use bit_vec::BitVec;
use vstd::prelude::*;

verus! {

/// `bit_vec::BitVec`, carried through verified code as an opaque value.
#[verifier::external_type_specification]
#[verifier::external_body]
#[verifier::reject_recursive_types(B)]
pub struct ExBitVec<B>(BitVec<B>);

/// The bits that a `BitVec` holds, from index 0 to its last index.
pub uninterp spec fn bit_seq(bv: BitVec) -> Seq<bool>;

/// `BitVec::new`: a vector that holds no bits.
#[verifier::external_body]
pub(crate) fn bit_vec_new() -> (bv: BitVec)
    ensures
        bit_seq(bv) == Seq::<bool>::empty(),
{
    BitVec::new()
}

/// `BitVec::from_bytes`: every byte becomes eight bits, the most
/// significant bit of each byte first.  The call panics where the bit count
/// overflows `usize`, which the precondition rules out.
#[verifier::external_body]
pub(crate) fn bit_vec_from_bytes(bytes: &[u8]) -> (bv: BitVec)
    requires
        8 * bytes@.len() <= usize::MAX,
    ensures
        bit_seq(bv) == bits_of_bytes(bytes@),
{
    BitVec::from_bytes(bytes)
}

/// `BitVec::len`: the number of bits held.
#[verifier::external_body]
pub(crate) fn bit_vec_len(bv: &BitVec) -> (n: usize)
    ensures
        n == bit_seq(*bv).len(),
{
    bv.len()
}

/// `BitVec::get`: the bit at index `i`, or `None` where `i` is out of
/// bounds.
#[verifier::external_body]
pub(crate) fn bit_vec_get(bv: &BitVec, i: usize) -> (bit: Option<bool>)
    ensures
        bit == (if i < bit_seq(*bv).len() {
            Some(bit_seq(*bv)[i as int])
        } else {
            None
        }),
{
    bv.get(i)
}

/// `BitVec::set`: the bit at index `i` becomes `x` and every other bit
/// stays.  The call panics where `i` is out of bounds, which the
/// precondition rules out.
#[verifier::external_body]
pub(crate) fn bit_vec_set(bv: &mut BitVec, i: usize, x: bool)
    requires
        i < bit_seq(*old(bv)).len(),
    ensures
        bit_seq(*final(bv)) == bit_seq(*old(bv)).update(i as int, x),
{
    bv.set(i, x)
}

/// `BitVec::push`: `elem` is appended after the last bit.  The call panics
/// where the length would overflow `usize`, which the precondition rules
/// out.
#[verifier::external_body]
pub(crate) fn bit_vec_push(bv: &mut BitVec, elem: bool)
    requires
        bit_seq(*old(bv)).len() < usize::MAX,
    ensures
        bit_seq(*final(bv)) == bit_seq(*old(bv)).push(elem),
{
    bv.push(elem)
}

/// `BitVec::to_bytes`: the bits grouped into bytes, the first bit of each
/// group of eight becoming the high-order bit of its byte; a last group of
/// fewer than eight bits is filled up with `false`.
#[verifier::external_body]
pub(crate) fn bit_vec_to_bytes(bv: &BitVec) -> (bytes: Vec<u8>)
    ensures
        bytes@ == bytes_of_bits(bit_seq(*bv)),
{
    bv.to_bytes()
}

} // verus!
