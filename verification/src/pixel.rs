//! RGBA pixels and the Max-Light per-pixel blend.

use vstd::prelude::*;

verus! {

/// One RGBA pixel, 8 bits per channel, alpha last.
#[derive(Clone, Copy, Debug, PartialEq, Eq, Structural)]
pub struct Pixel {
    pub r: u8,
    pub g: u8,
    pub b: u8,
    pub a: u8,
}

/// Fully transparent black: what Weighted-Brightness yields where no frame
/// contributes any weight.
pub open spec fn transparent_black() -> Pixel {
    Pixel { r: 0, g: 0, b: 0, a: 0 }
}

impl Pixel {
    /// Channels by position: red, green, blue, then alpha.
    pub open spec fn channel(self, c: int) -> u8 {
        if c == 0 {
            self.r
        } else if c == 1 {
            self.g
        } else if c == 2 {
            self.b
        } else {
            self.a
        }
    }
}

/// Per-channel maximum of two pixels; the result is fully opaque.
pub open spec fn spec_blend_max(p: Pixel, q: Pixel) -> Pixel {
    Pixel {
        r: if p.r >= q.r { p.r } else { q.r },
        g: if p.g >= q.g { p.g } else { q.g },
        b: if p.b >= q.b { p.b } else { q.b },
        a: 255,
    }
}

/// Blends two pixels by taking the brighter value of each color channel and
/// forcing the result opaque.
pub fn blend_max(pixel1: &Pixel, pixel2: &Pixel) -> (r: Pixel)
    ensures
        r == spec_blend_max(*pixel1, *pixel2),
{
    Pixel {
        r: if pixel1.r >= pixel2.r { pixel1.r } else { pixel2.r },
        g: if pixel1.g >= pixel2.g { pixel1.g } else { pixel2.g },
        b: if pixel1.b >= pixel2.b { pixel1.b } else { pixel2.b },
        a: 255,
    }
}

} // verus!
