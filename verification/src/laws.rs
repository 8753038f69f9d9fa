//! Properties of the codec that relate encoding, decoding and the cover.
//!
//! Each proof function below is stated over the same specification
//! functions that the contracts of `encode` and `decode` use, so it holds of
//! every grid those functions return.

use crate::bit_model::{
    be_bytes, bits_of_bytes, byte_bit, lemma_with_lsb, lsb,
};
use crate::codec::{
    capacity, carrier_index, decode_spec, embed, embedded_sample, encode_spec, extract,
    grid_outcome, lemma_sample_position, valid_channels,
};
use crate::error::CodecError;
use crate::framing::{frame_bits, framed_len, lemma_unframe_frame};
use crate::grid::{GridView, PixelGrid};
use vstd::arithmetic::div_mod::lemma_fundamental_div_mod;
use vstd::prelude::*;

verus! {

/// Bit `i` of the stream travels in a sample of the grid, and that sample
/// carries no other bit.
pub proof fn lemma_carrier_position(grid: GridView, channels: nat, i: int)
    requires
        grid.wf(),
        valid_channels(grid, channels),
        0 <= i < capacity(grid, channels),
    ensures
        ({
            let j = carrier_index(i, grid.channel_count as int, channels as int);
            &&& 0 <= j < grid.samples.len()
            &&& j % (grid.channel_count as int) == i % (channels as int)
            &&& j / (grid.channel_count as int) == i / (channels as int)
            &&& j % (grid.channel_count as int) < channels
            &&& (j / (grid.channel_count as int)) * channels + j % (grid.channel_count as int) == i
        }),
{
    let ch = channels as int;
    let cc = grid.channel_count as int;
    let pixels = (grid.width * grid.height) as int;
    let p = i / ch;
    let n = i % ch;
    lemma_fundamental_div_mod(i, ch);
    assert(p < pixels) by (nonlinear_arith)
        requires
            i == ch * p + n,
            0 <= n < ch,
            0 <= i < pixels * ch,
    ;
    assert(0 <= p) by (nonlinear_arith)
        requires
            i == ch * p + n,
            0 <= n < ch,
            0 <= i,
    ;
    lemma_sample_position(p, n, cc, pixels);
    assert(ch * p == p * ch) by (nonlinear_arith);
}

/// Reading the carrier channels of a grid after embedding `bits` gives
/// `bits`, followed by what those channels held before from there on.
pub proof fn lemma_extract_embed(grid: GridView, channels: nat, bits: Seq<bool>)
    requires
        grid.wf(),
        valid_channels(grid, channels),
        bits.len() <= capacity(grid, channels),
    ensures
        extract(embed(grid, channels, bits), channels) == bits + extract(grid, channels).skip(
            bits.len() as int,
        ),
{
    let stego = embed(grid, channels, bits);
    let read = extract(stego, channels);
    let expected = bits + extract(grid, channels).skip(bits.len() as int);
    assert(read.len() == expected.len());
    assert forall|i: int| 0 <= i < read.len() implies read[i] == expected[i] by {
        lemma_carrier_position(grid, channels, i);
        let j = carrier_index(i, grid.channel_count as int, channels as int);
        assert(stego.samples[j] == embedded_sample(grid, channels, bits, j));
        if i < bits.len() {
            lemma_with_lsb(grid.samples[j], bits[i]);
        }
    }
    assert(read =~= expected);
}

/// Round trip: a payload that fits is decoded from the encoded grid
/// exactly as it went in, for every valid channel count.
pub proof fn lemma_decode_inverts_encode(cover: GridView, payload: Seq<u8>, channels: nat)
    requires
        cover.wf(),
        payload.len() <= u32::MAX,
        valid_channels(cover, channels),
        framed_len(payload.len()) <= capacity(cover, channels),
    ensures
        encode_spec(cover, payload, channels) matches Ok(stego) && decode_spec(stego, channels)
            == Ok::<Seq<u8>, CodecError>(payload),
{
    let bits = frame_bits(payload);
    let rest = extract(cover, channels).skip(bits.len() as int);
    lemma_unframe_frame(payload, rest);
    lemma_extract_embed(cover, channels, bits);
}

/// A payload whose frame is longer than the capacity is refused with
/// `CapacityExceeded`; no grid comes out.
pub proof fn lemma_over_capacity_is_refused(cover: GridView, payload: Seq<u8>, channels: nat)
    requires
        valid_channels(cover, channels),
        framed_len(payload.len()) > capacity(cover, channels),
    ensures
        encode_spec(cover, payload, channels) == Err::<GridView, CodecError>(
            CodecError::CapacityExceeded,
        ),
{
}

/// Channel isolation: the channels from `channels` on hold in every pixel
/// of the encoded grid what they hold in the cover.
pub proof fn lemma_channel_isolation(
    cover: GridView,
    payload: Seq<u8>,
    channels: nat,
    stego: GridView,
)
    requires
        cover.wf(),
        encode_spec(cover, payload, channels) == Ok::<GridView, CodecError>(stego),
    ensures
        stego.width == cover.width,
        stego.height == cover.height,
        stego.channel_count == cover.channel_count,
        forall|p: int, n: int|
            0 <= p < cover.pixel_count() && channels <= n < cover.channel_count
                ==> #[trigger] stego.channel(p, n) == cover.channel(p, n),
{
    assert forall|p: int, n: int|
        0 <= p < cover.pixel_count() && channels <= n < cover.channel_count
        implies #[trigger] stego.channel(p, n) == cover.channel(p, n) by {
        lemma_sample_position(p, n, cover.channel_count as int, cover.pixel_count() as int);
    }
}

/// Upper-bit preservation: every sample of the encoded grid agrees with
/// the cover's sample in its upper seven bits.
pub proof fn lemma_upper_bits_preserved(
    cover: GridView,
    payload: Seq<u8>,
    channels: nat,
    stego: GridView,
)
    requires
        encode_spec(cover, payload, channels) == Ok::<GridView, CodecError>(stego),
    ensures
        stego.samples.len() == cover.samples.len(),
        forall|j: int|
            0 <= j < cover.samples.len() ==> #[trigger] stego.samples[j] & 0xFE
                == cover.samples[j] & 0xFE,
{
    let bits = frame_bits(payload);
    assert forall|j: int| 0 <= j < cover.samples.len() implies #[trigger] stego.samples[j] & 0xFE
        == cover.samples[j] & 0xFE by {
        let n = j % (cover.channel_count as int);
        let i = (j / (cover.channel_count as int)) * channels + n;
        if n < channels && i < bits.len() {
            lemma_with_lsb(cover.samples[j], bits[i]);
        }
    }
}

/// The frame of the empty payload is its length prefix alone: 32 zero
/// bits.
pub proof fn lemma_empty_frame()
    ensures
        frame_bits(Seq::<u8>::empty()) == Seq::new(32, |i: int| false),
{
    let zero = be_bytes(0u32);
    assert((0u32 >> 24) as u8 == 0u8 && ((0u32 >> 16) & 0xff) as u8 == 0u8 && ((0u32 >> 8) & 0xff)
        as u8 == 0u8 && (0u32 & 0xff) as u8 == 0u8) by (bit_vector);
    assert(forall|k: u8| 0 <= k < 8 ==> #[trigger] (0u8 >> k) & 1 != 1) by (bit_vector);
    assert forall|i: int| 0 <= i < 32 implies !#[trigger] bits_of_bytes(zero)[i] by {
        let j = i % 8;
        assert(zero[i / 8] == 0u8);
        assert(byte_bit(0u8, j) == ((0u8 >> ((7 - j) as u8)) & 1 == 1));
    }
    assert(frame_bits(Seq::<u8>::empty()) =~= Seq::new(32, |i: int| false));
}

/// Empty payload: encoding it embeds exactly a 32-bit zero length prefix,
/// and decoding the result gives the empty byte sequence.
pub proof fn lemma_empty_payload(cover: GridView, channels: nat, stego: GridView)
    requires
        cover.wf(),
        encode_spec(cover, Seq::<u8>::empty(), channels) == Ok::<GridView, CodecError>(stego),
    ensures
        stego == embed(cover, channels, Seq::new(32, |i: int| false)),
        decode_spec(stego, channels) == Ok::<Seq<u8>, CodecError>(Seq::<u8>::empty()),
{
    lemma_empty_frame();
    lemma_decode_inverts_encode(cover, Seq::<u8>::empty(), channels);
}

/// Determinism: whatever `encode` returns for a cover, a payload and a
/// channel count is fixed by them, so two runs on the same inputs agree in
/// dimensions, channel layout and every sample, or fail alike.
pub proof fn lemma_encode_is_deterministic(
    cover: PixelGrid,
    payload: Seq<u8>,
    channels: usize,
    first: Result<PixelGrid, CodecError>,
    second: Result<PixelGrid, CodecError>,
)
    requires
        grid_outcome(first) == encode_spec(cover@, payload, channels as nat),
        grid_outcome(second) == encode_spec(cover@, payload, channels as nat),
    ensures
        grid_outcome(first) == grid_outcome(second),
        first matches Ok(a) ==> second matches Ok(b) && a@.samples == b@.samples,
{
}

} // verus!
