use vstd::prelude::*;

verus! {

/// Why an encode or decode call was refused.
#[derive(Clone, Copy, Debug, PartialEq, Eq, Structural)]
pub enum CodecError {
    /// The requested channel count is zero or exceeds the pixel's channel count.
    InvalidChannelCount,
    /// The framed payload needs more bits than the carrier offers.
    CapacityExceeded,
    /// The carrier holds fewer bits than its length prefix announces.
    TruncatedFrame,
}

} // verus!
