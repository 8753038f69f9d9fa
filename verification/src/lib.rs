//! Least-significant-bit steganography over raster pixel grids.
//!
//! A payload is framed as a 32-bit big-endian length followed by its bytes,
//! each expanded most-significant-bit first, and the resulting bit stream is
//! written into the lowest bit of the leading channels of every pixel, in
//! raster order.  Decoding walks the same samples in the same order and
//! reverses the framing.
//!
//! Every executable function carries a contract over the mathematical
//! model in [`bit_model`], [`framing`] and [`codec`]; the calls into the
//! `bit_vec` and `byteorder` crates are confined to [`bitvec_api`] and
//! [`byteorder_api`], whose contracts are assumed rather than proved.

pub mod bit_model;
pub mod bits;
pub mod bitvec_api;
pub mod byteorder_api;
pub mod codec;
pub mod error;
pub mod framing;
pub mod grid;
pub mod laws;

pub use bits::{bit_vec_from_u32, combine_bit_vecs, get_last_bit, modify_last_bit, u32_from_bit_vec};
pub use codec::{decode, encode};
pub use error::CodecError;
pub use framing::{frame, unframe};
pub use grid::{GridView, PixelGrid};
