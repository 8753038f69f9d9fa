//! The part of the `byteorder` crate that this library builds on.
//!
//! Nothing in this file is proved.  Each function below makes one call into
//! `byteorder`, and its contract records what that crate documents for the
//! call.

use crate::bit_model::{be_bytes, be_value};
use byteorder::{BigEndian, ReadBytesExt, WriteBytesExt};
use vstd::prelude::*;

verus! {

/// `WriteBytesExt::write_u32::<BigEndian>` on a byte vector: the four bytes
/// of `n` are appended, most significant byte first.  Writing to a vector
/// cannot fail.
#[verifier::external_body]
pub(crate) fn write_u32_be(bytes: &mut Vec<u8>, n: u32)
    ensures
        final(bytes)@ == old(bytes)@ + be_bytes(n),
{
    bytes.write_u32::<BigEndian>(n).unwrap()
}

/// `ReadBytesExt::read_u32::<BigEndian>` on a cursor over `bytes`: the
/// first four bytes read as a word, most significant byte first.  The read
/// fails where fewer than four bytes are left, which the precondition
/// rules out.
#[verifier::external_body]
pub(crate) fn read_u32_be(bytes: Vec<u8>) -> (n: u32)
    requires
        bytes@.len() >= 4,
    ensures
        n == be_value(bytes@),
{
    std::io::Cursor::new(bytes).read_u32::<BigEndian>().unwrap()
}

} // verus!
