//! The pixel grid that carries an embedded payload.

use vstd::arithmetic::div_mod::{lemma_fundamental_div_mod, lemma_fundamental_div_mod_converse};
use vstd::prelude::*;

verus! {

/// The mathematical content of a [`PixelGrid`]: its dimensions, the number
/// of channels of every pixel, and the channel values in raster order
/// (rows top to bottom, pixels left to right, the channels of one pixel
/// next to each other).
pub struct GridView {
    pub width: nat,
    pub height: nat,
    pub channel_count: nat,
    pub samples: Seq<u8>,
}

impl GridView {
    /// The number of pixels.
    pub open spec fn pixel_count(self) -> nat {
        self.width * self.height
    }

    /// Every pixel has exactly `channel_count` samples.
    pub open spec fn wf(self) -> bool {
        self.samples.len() == self.width * self.height * self.channel_count
    }

    /// The value of channel `n` of the pixel with raster index `p`.
    pub open spec fn channel(self, p: int, n: int) -> u8 {
        self.samples[p * self.channel_count + n]
    }
}

/// A width × height raster of pixels with `channel_count` 8-bit channels
/// each.  The sample vector always holds exactly
/// `width * height * channel_count` values.
#[derive(Debug, PartialEq, Eq)]
pub struct PixelGrid {
    width: u32,
    height: u32,
    channel_count: usize,
    samples: Vec<u8>,
}

impl View for PixelGrid {
    type V = GridView;

    closed spec fn view(&self) -> GridView {
        GridView {
            width: self.width as nat,
            height: self.height as nat,
            channel_count: self.channel_count as nat,
            samples: self.samples@,
        }
    }
}

impl Clone for PixelGrid {
    fn clone(&self) -> (copy: Self)
        ensures
            copy@ == self@,
    {
        proof {
            use_type_invariant(self);
        }
        PixelGrid {
            width: self.width,
            height: self.height,
            channel_count: self.channel_count,
            samples: self.samples.clone(),
        }
    }
}

impl PixelGrid {
    #[verifier::type_invariant]
    spec fn well_formed(self) -> bool {
        self.samples@.len() == self.width * self.height * self.channel_count
    }

    /// Builds a grid from its dimensions and its samples in raster order.
    /// Returns `None` exactly when the number of samples is not
    /// `width * height * channel_count`.
    pub fn new(width: u32, height: u32, channel_count: usize, samples: Vec<u8>) -> (r: Option<
        PixelGrid,
    >)
        ensures
            r is Some <==> samples@.len() == width * height * channel_count,
            r matches Some(g) ==> g@ == (GridView {
                width: width as nat,
                height: height as nat,
                channel_count: channel_count as nat,
                samples: samples@,
            }),
    {
        assert(width * height <= 0xffff_ffff * 0xffff_ffff) by (nonlinear_arith)
            requires
                0 <= width <= 0xffff_ffff,
                0 <= height <= 0xffff_ffff,
        ;
        let pixels: u64 = (width as u64) * (height as u64);
        let len = samples.len();
        let fits = if channel_count == 0 {
            len == 0
        } else {
            len % channel_count == 0 && (len / channel_count) as u64 == pixels
        };
        proof {
            let w = width as int;
            let h = height as int;
            let cc = channel_count as int;
            if cc == 0 {
                assert(w * h * cc == 0) by (nonlinear_arith)
                    requires
                        cc == 0,
                ;
            } else {
                if len == w * h * cc {
                    lemma_fundamental_div_mod_converse(len as int, cc, w * h, 0);
                }
                if fits {
                    lemma_fundamental_div_mod(len as int, cc);
                    assert(cc * (w * h) == w * h * cc) by (nonlinear_arith);
                }
            }
        }
        if fits {
            Some(PixelGrid { width, height, channel_count, samples })
        } else {
            None
        }
    }

    /// A grid of the same dimensions and channel layout as `self` that holds
    /// `samples`.
    pub(crate) fn with_samples(&self, samples: Vec<u8>) -> (grid: PixelGrid)
        requires
            samples@.len() == self@.samples.len(),
        ensures
            grid@ == (GridView {
                width: self@.width,
                height: self@.height,
                channel_count: self@.channel_count,
                samples: samples@,
            }),
    {
        proof {
            use_type_invariant(self);
        }
        PixelGrid {
            width: self.width,
            height: self.height,
            channel_count: self.channel_count,
            samples,
        }
    }

    /// The number of pixels in a row.
    pub fn width(&self) -> (w: u32)
        ensures
            w == self@.width,
    {
        self.width
    }

    /// The number of rows.
    pub fn height(&self) -> (h: u32)
        ensures
            h == self@.height,
    {
        self.height
    }

    /// The number of channels of every pixel.
    pub fn channel_count(&self) -> (c: usize)
        ensures
            c == self@.channel_count,
    {
        self.channel_count
    }

    /// The channel values in raster order.
    pub fn samples(&self) -> (s: &Vec<u8>)
        ensures
            s@ == self@.samples,
            self@.wf(),
    {
        proof {
            use_type_invariant(self);
        }
        &self.samples
    }

    /// Gives up the grid for its channel values in raster order.
    pub fn into_samples(self) -> (s: Vec<u8>)
        ensures
            s@ == self@.samples,
            self@.wf(),
    {
        proof {
            use_type_invariant(&self);
        }
        self.samples
    }
}

} // verus!
