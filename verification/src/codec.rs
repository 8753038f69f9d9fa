//! Embedding a framed payload into the lowest bits of a pixel grid, and
//! reading it back.
//!
//! Bit `i` of the stream lives in channel `i % channels` of the pixel with
//! raster index `i / channels`.  Channels from `channels` on are never
//! touched, and samples past the end of the stream stay as they are.

use crate::bit_model::{lsb, with_lsb};
use crate::bits::{get_last_bit, modify_last_bit};
use crate::bitvec_api::{bit_seq, bit_vec_get, bit_vec_len, bit_vec_new, bit_vec_push};
use crate::error::CodecError;
use crate::framing::{frame, frame_bits, framed_len, unframe, unframe_spec};
use crate::grid::{GridView, PixelGrid};
use vstd::arithmetic::div_mod::{lemma_fundamental_div_mod, lemma_fundamental_div_mod_converse};
use vstd::prelude::*;

verus! {

/// `channels` names at least one and at most all of the channels of a pixel.
pub open spec fn valid_channels(grid: GridView, channels: nat) -> bool {
    1 <= channels <= grid.channel_count
}

/// The number of bits that `grid` can carry in its first `channels`
/// channels.
pub open spec fn capacity(grid: GridView, channels: nat) -> nat {
    grid.width * grid.height * channels
}

/// The index of the sample that carries bit `i` of the stream.
pub open spec fn carrier_index(i: int, channel_count: int, channels: int) -> int {
    (i / channels) * channel_count + i % channels
}

/// The value of sample `j` once `bits` is embedded: where the sample lies
/// in one of the first `channels` channels of its pixel and the stream
/// still has a bit for it, its lowest bit is that bit; otherwise it is
/// unchanged.
pub open spec fn embedded_sample(grid: GridView, channels: nat, bits: Seq<bool>, j: int) -> u8 {
    let n = j % (grid.channel_count as int);
    let i = (j / (grid.channel_count as int)) * channels + n;
    if n < channels && i < bits.len() {
        with_lsb(grid.samples[j], bits[i])
    } else {
        grid.samples[j]
    }
}

/// `grid` with `bits` embedded in the first `channels` channels of its
/// pixels, in raster order.
pub open spec fn embed(grid: GridView, channels: nat, bits: Seq<bool>) -> GridView {
    GridView {
        width: grid.width,
        height: grid.height,
        channel_count: grid.channel_count,
        samples: Seq::new(
            grid.samples.len(),
            |j: int| embedded_sample(grid, channels, bits, j),
        ),
    }
}

/// The lowest bits of the first `channels` channels of every pixel of
/// `grid`, in raster order.
pub open spec fn extract(grid: GridView, channels: nat) -> Seq<bool> {
    Seq::new(
        capacity(grid, channels),
        |i: int| lsb(grid.samples[carrier_index(i, grid.channel_count as int, channels as int)]),
    )
}

/// What encoding `payload` into `cover` gives: a refusal where `channels`
/// is invalid or the frame does not fit, and otherwise the cover with the
/// framed payload embedded.
pub open spec fn encode_spec(cover: GridView, payload: Seq<u8>, channels: nat) -> Result<
    GridView,
    CodecError,
> {
    if !valid_channels(cover, channels) {
        Err(CodecError::InvalidChannelCount)
    } else if framed_len(payload.len()) > capacity(cover, channels) {
        Err(CodecError::CapacityExceeded)
    } else {
        Ok(embed(cover, channels, frame_bits(payload)))
    }
}

/// What decoding `stego` gives: a refusal where `channels` is invalid or
/// the grid holds fewer bits than its length prefix announces, and
/// otherwise the announced number of payload bytes.
pub open spec fn decode_spec(stego: GridView, channels: nat) -> Result<Seq<u8>, CodecError> {
    if !valid_channels(stego, channels) {
        Err(CodecError::InvalidChannelCount)
    } else {
        match unframe_spec(extract(stego, channels)) {
            Ok((_, payload)) => Ok(payload),
            Err(e) => Err(e),
        }
    }
}

/// The mathematical content of what `encode` returned.
pub open spec fn grid_outcome(r: Result<PixelGrid, CodecError>) -> Result<GridView, CodecError> {
    match r {
        Ok(grid) => Ok(grid@),
        Err(e) => Err(e),
    }
}

/// The mathematical content of what `decode` returned.
pub open spec fn bytes_outcome(r: Result<Vec<u8>, CodecError>) -> Result<Seq<u8>, CodecError> {
    match r {
        Ok(bytes) => Ok(bytes@),
        Err(e) => Err(e),
    }
}

/// For a sample index `j == p * channel_count + n` with `n` below the
/// channel count, `p` and `n` are the quotient and the remainder of `j`.
pub proof fn lemma_sample_position(p: int, n: int, channel_count: int, pixels: int)
    requires
        0 <= p < pixels,
        0 <= n < channel_count,
    ensures
        (p * channel_count + n) / channel_count == p,
        (p * channel_count + n) % channel_count == n,
        0 <= p * channel_count + n < pixels * channel_count,
{
    lemma_fundamental_div_mod_converse(p * channel_count + n, channel_count, p, n);
    assert(0 <= p * channel_count && p * channel_count + channel_count <= pixels * channel_count)
        by (nonlinear_arith)
        requires
            0 <= p < pixels,
            0 < channel_count,
    ;
}

/// Embeds the framed `payload` into a copy of `cover`, using the first
/// `channels` channels of every pixel.  The cover itself is left alone.
///
/// Fails with `InvalidChannelCount` unless `1 <= channels <=` the cover's
/// channel count, and with `CapacityExceeded` where the frame is longer
/// than `width * height * channels` bits; no grid is produced then.
pub fn encode(cover: &PixelGrid, payload: &[u8], channels: usize) -> (r: Result<
    PixelGrid,
    CodecError,
>)
    requires
        payload@.len() <= u32::MAX,
    ensures
        grid_outcome(r) == encode_spec(cover@, payload@, channels as nat),
{
    let cc = cover.channel_count();
    if channels == 0 || channels > cc {
        return Err(CodecError::InvalidChannelCount);
    }
    let samples = cover.samples();
    let total = samples.len();
    let pixels = total / cc;
    proof {
        let wh = cover@.width * cover@.height;
        lemma_fundamental_div_mod_converse(total as int, cc as int, wh as int, 0);
        assert(pixels * channels <= pixels * cc) by (nonlinear_arith)
            requires
                0 <= pixels,
                0 <= channels <= cc,
        ;
    }
    let room = pixels * channels;
    if payload.len() > (usize::MAX - 32) / 8 {
        return Err(CodecError::CapacityExceeded);
    }
    let framed = 32 + 8 * payload.len();
    if framed > room {
        return Err(CodecError::CapacityExceeded);
    }
    let bits = frame(payload);
    let nbits = bit_vec_len(&bits);
    let ghost stego = embed(cover@, channels as nat, bit_seq(bits));
    let mut out: Vec<u8> = Vec::with_capacity(total);
    let mut index: usize = 0;
    let mut j: usize = 0;
    let mut p: usize = 0;
    while p < pixels
        invariant
            1 <= channels <= cc,
            cc == cover@.channel_count,
            samples@ == cover@.samples,
            total == samples@.len(),
            total == pixels * cc,
            pixels * channels <= total,
            p <= pixels,
            j == p * cc,
            index == p * channels,
            nbits == bit_seq(bits).len(),
            stego == embed(cover@, channels as nat, bit_seq(bits)),
            out@ == stego.samples.take(j as int),
        decreases pixels - p,
    {
        let mut n: usize = 0;
        while n < cc
            invariant
                1 <= channels <= cc,
                cc == cover@.channel_count,
                samples@ == cover@.samples,
                total == samples@.len(),
                total == pixels * cc,
                pixels * channels <= total,
                p < pixels,
                n <= cc,
                j == p * cc + n,
                index == p * channels + (if n < channels { n } else { channels }),
                nbits == bit_seq(bits).len(),
                stego == embed(cover@, channels as nat, bit_seq(bits)),
                out@ == stego.samples.take(j as int),
            decreases cc - n,
        {
            proof {
                lemma_sample_position(p as int, n as int, cc as int, pixels as int);
                if n < channels {
                    lemma_sample_position(p as int, n as int, channels as int, pixels as int);
                }
            }
            let v = samples[j];
            if n < channels {
                if index < nbits {
                    let bit = bit_vec_get(&bits, index).unwrap();
                    out.push(modify_last_bit(v, bit));
                } else {
                    out.push(v);
                }
                index += 1;
            } else {
                out.push(v);
            }
            assert(out@ == stego.samples.take(j + 1));
            n += 1;
            j += 1;
        }
        proof {
            assert((p + 1) * cc == p * cc + cc && (p + 1) * channels == p * channels + channels)
                by (nonlinear_arith);
        }
        p += 1;
    }
    assert(out@ == stego.samples);
    Ok(cover.with_samples(out))
}

/// Reads the payload back from the first `channels` channels of every
/// pixel of `stego`.
///
/// Fails with `InvalidChannelCount` unless `1 <= channels <=` the grid's
/// channel count, and with `TruncatedFrame` where the grid holds fewer bits
/// than its length prefix announces; no bytes are returned then.
pub fn decode(stego: &PixelGrid, channels: usize) -> (r: Result<Vec<u8>, CodecError>)
    ensures
        bytes_outcome(r) == decode_spec(stego@, channels as nat),
{
    let cc = stego.channel_count();
    if channels == 0 || channels > cc {
        return Err(CodecError::InvalidChannelCount);
    }
    let samples = stego.samples();
    let total = samples.len();
    let pixels = total / cc;
    proof {
        let wh = stego@.width * stego@.height;
        lemma_fundamental_div_mod_converse(total as int, cc as int, wh as int, 0);
        assert(pixels * channels <= pixels * cc) by (nonlinear_arith)
            requires
                0 <= pixels,
                0 <= channels <= cc,
        ;
    }
    let ghost stream = extract(stego@, channels as nat);
    let mut bits = bit_vec_new();
    let mut base: usize = 0;
    let mut p: usize = 0;
    while p < pixels
        invariant
            1 <= channels <= cc,
            cc == stego@.channel_count,
            samples@ == stego@.samples,
            total == samples@.len(),
            total == pixels * cc,
            pixels * channels <= total,
            pixels == stego@.width * stego@.height,
            p <= pixels,
            base == p * cc,
            stream == extract(stego@, channels as nat),
            bit_seq(bits) == stream.take(p * channels),
        decreases pixels - p,
    {
        let mut n: usize = 0;
        while n < channels
            invariant
                1 <= channels <= cc,
                cc == stego@.channel_count,
                samples@ == stego@.samples,
                total == samples@.len(),
                total == pixels * cc,
                pixels * channels <= total,
                pixels == stego@.width * stego@.height,
                p < pixels,
                n <= channels,
                base == p * cc,
                stream == extract(stego@, channels as nat),
                bit_seq(bits) == stream.take(p * channels + n),
            decreases channels - n,
        {
            proof {
                lemma_sample_position(p as int, n as int, cc as int, pixels as int);
                lemma_sample_position(p as int, n as int, channels as int, pixels as int);
            }
            let bit = get_last_bit(samples[base + n]);
            bit_vec_push(&mut bits, bit);
            assert(bit_seq(bits) == stream.take(p * channels + n + 1));
            n += 1;
        }
        proof {
            assert((p + 1) * cc == p * cc + cc && (p + 1) * channels == p * channels + channels)
                by (nonlinear_arith);
            assert((p + 1) * cc <= pixels * cc) by (nonlinear_arith)
                requires
                    p < pixels,
                    0 <= cc,
            ;
        }
        base += cc;
        p += 1;
    }
    assert(bit_seq(bits) == stream);
    match unframe(&bits) {
        Ok((_, payload)) => Ok(payload),
        Err(e) => Err(e),
    }
}

} // verus!
