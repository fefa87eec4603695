//! In-memory images: a pixel grid with its dimensions, and a loaded frame
//! paired with its blending weight.

use crate::pixel::Pixel;
use vstd::prelude::*;

verus! {

/// A width x height grid of RGBA pixels, stored row by row.
#[derive(Debug)]
pub struct Image {
    pub width: usize,
    pub height: usize,
    pub pixels: Vec<Pixel>,
}

impl Image {
    /// The pixel buffer holds exactly one pixel per coordinate.
    pub open spec fn well_formed(self) -> bool {
        self.pixels@.len() == self.width * self.height
    }

    /// How many pixels the image has.
    pub fn pixel_count(&self) -> (n: usize)
        requires
            self.well_formed(),
        ensures
            n == self.width * self.height,
    {
        self.pixels.len()
    }
}

/// One decoded frame together with the weight the caller assigned to it.
#[derive(Debug)]
pub struct LoadedFrame {
    pub image: Image,
    pub weight: u32,
}

impl LoadedFrame {
    pub open spec fn well_formed(self) -> bool {
        self.image.well_formed()
    }
}

/// The pixel of one frame at a flattened coordinate.
pub open spec fn frame_pixel(f: LoadedFrame, idx: int) -> Pixel {
    f.image.pixels@[idx]
}

/// All frames share the dimensions of the first one.
pub open spec fn dims_match(frames: Seq<LoadedFrame>) -> bool {
    forall|i: int|
        0 <= i < frames.len() ==> (#[trigger] frames[i]).image.width == frames[0].image.width
            && frames[i].image.height == frames[0].image.height
}

} // verus!
