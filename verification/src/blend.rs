//! The two pixel-blending strategies.
//!
//! Max-Light takes the per-channel maximum over all frames. Weighted-Brightness
//! averages the channels, weighting each frame's pixel by the frame weight, the
//! pixel's alpha, and an emphasis that grows with perceptual brightness raised
//! to the power 4.5. All arithmetic is exact integer arithmetic: the luma is
//! kept in thousandths, the emphasis is `isqrt(level^9)` for the brightness
//! level on the 0..=255 scale, and the weight normalization of the average
//! cancels out of the quotient, so no division happens until the final
//! per-pixel quotient.

use crate::frame::{frame_pixel, LoadedFrame};
use crate::math::{
    isqrt, lemma_isqrt_bounds, lemma_isqrt_monotone, lemma_isqrt_unique, pow9, spec_isqrt,
    spec_pow9,
};
use crate::pixel::{blend_max, spec_blend_max, transparent_black, Pixel};
use vstd::arithmetic::div_mod::{
    lemma_div_by_multiple, lemma_div_is_ordered, lemma_div_pos_is_pos,
};
use vstd::prelude::*;

verus! {

/// Perceptual luma of a pixel in thousandths: 0.299 R + 0.587 G + 0.114 B,
/// scaled by 1000.
pub open spec fn spec_luma(p: Pixel) -> int {
    299 * p.r + 587 * p.g + 114 * p.b
}

/// Brightness on the 0..=255 scale (255 for pure white).
pub open spec fn spec_brightness_level(p: Pixel) -> int {
    spec_luma(p) / 1000
}

/// The emphasis factor: the brightness level raised to the power 4.5, i.e. the
/// integer square root of its ninth power. Brighter pixels dominate the
/// weighted average, as highlights dominate a real long exposure.
pub open spec fn spec_emphasis(p: Pixel) -> int {
    spec_isqrt(spec_pow9(spec_brightness_level(p)))
}

/// What one frame adds to the accumulated weight at a pixel: its weight times
/// the pixel's alpha times the brightness emphasis.
pub open spec fn spec_contribution(w: int, p: Pixel) -> int {
    w * p.a * spec_emphasis(p)
}

/// The summed contributions of all frames at one flattened coordinate.
pub open spec fn sum_contrib(frames: Seq<LoadedFrame>, idx: int) -> int
    decreases frames.len(),
{
    if frames.len() == 0 {
        0
    } else {
        sum_contrib(frames.drop_last(), idx) + spec_contribution(
            frames.last().weight as int,
            frame_pixel(frames.last(), idx),
        )
    }
}

/// The contribution-weighted sum of channel `c` over all frames at one
/// coordinate (`c` counts red, green, blue, alpha in that order).
pub open spec fn sum_channel(frames: Seq<LoadedFrame>, idx: int, c: int) -> int
    decreases frames.len(),
{
    if frames.len() == 0 {
        0
    } else {
        sum_channel(frames.drop_last(), idx, c) + spec_contribution(
            frames.last().weight as int,
            frame_pixel(frames.last(), idx),
        ) * frame_pixel(frames.last(), idx).channel(c)
    }
}

/// The Weighted-Brightness result at one coordinate: each channel is the
/// contribution-weighted average; where nothing contributes, fully
/// transparent black.
pub open spec fn spec_weighted_pixel(frames: Seq<LoadedFrame>, idx: int) -> Pixel {
    let q = sum_contrib(frames, idx);
    if q == 0 {
        transparent_black()
    } else {
        Pixel {
            r: (sum_channel(frames, idx, 0) / q) as u8,
            g: (sum_channel(frames, idx, 1) / q) as u8,
            b: (sum_channel(frames, idx, 2) / q) as u8,
            a: (sum_channel(frames, idx, 3) / q) as u8,
        }
    }
}

/// The Max-Light result at one coordinate: the per-channel maximum over all
/// frames, starting from opaque black.
pub open spec fn spec_max_pixel(frames: Seq<LoadedFrame>, idx: int) -> Pixel
    decreases frames.len(),
{
    if frames.len() == 0 {
        Pixel { r: 0, g: 0, b: 0, a: 255 }
    } else {
        spec_blend_max(spec_max_pixel(frames.drop_last(), idx), frame_pixel(frames.last(), idx))
    }
}

/// Computes the brightness emphasis of a pixel.
pub fn emphasis(p: &Pixel) -> (e: u64)
    ensures
        e == spec_emphasis(*p),
        e <= 67519747879,
{
    let luma: u32 = 299 * (p.r as u32) + 587 * (p.g as u32) + 114 * (p.b as u32);
    let level: u32 = luma / 1000;
    proof {
        lemma_div_is_ordered(luma as int, 255000, 1000);
        lemma_div_pos_is_pos(luma as int, 1000);
    }
    let p9: u128 = pow9(level);
    let e: u64 = isqrt(p9);
    proof {
        lemma_isqrt_monotone(p9 as int, 4558916353692287109375);
        assert(67519747879 * 67519747879 <= 4558916353692287109375 < (67519747879 + 1) * (
        67519747879 + 1)) by (nonlinear_arith);
        lemma_isqrt_unique(4558916353692287109375, 67519747879);
    }
    e
}

/// The emphasis is never negative.
pub proof fn lemma_emphasis_nonneg(p: Pixel)
    ensures
        0 <= spec_emphasis(p),
{
    lemma_div_pos_is_pos(spec_luma(p), 1000);
    let level = spec_brightness_level(p);
    assert(0 <= spec_pow9(level)) by (nonlinear_arith)
        requires
            0 <= level,
    ;
    lemma_isqrt_bounds(spec_pow9(level));
}

/// A contribution is never negative.
pub proof fn lemma_contribution_nonneg(w: int, p: Pixel)
    requires
        0 <= w,
    ensures
        0 <= spec_contribution(w, p),
{
    lemma_emphasis_nonneg(p);
    assert(0 <= w * p.a * spec_emphasis(p)) by (nonlinear_arith)
        requires
            0 <= w,
            0 <= p.a,
            0 <= spec_emphasis(p),
    ;
}

/// The summed contributions are never negative.
pub proof fn lemma_sum_contrib_nonneg(frames: Seq<LoadedFrame>, idx: int)
    ensures
        0 <= sum_contrib(frames, idx),
    decreases frames.len(),
{
    if frames.len() > 0 {
        lemma_sum_contrib_nonneg(frames.drop_last(), idx);
        lemma_contribution_nonneg(frames.last().weight as int, frame_pixel(frames.last(), idx));
    }
}

/// Each channel sum is bounded by 255 times the contribution sum, and is
/// never negative.
pub proof fn lemma_sum_channel_bounds(frames: Seq<LoadedFrame>, idx: int, c: int)
    ensures
        0 <= sum_channel(frames, idx, c),
        sum_channel(frames, idx, c) <= 255 * sum_contrib(frames, idx),
    decreases frames.len(),
{
    if frames.len() > 0 {
        lemma_sum_channel_bounds(frames.drop_last(), idx, c);
        let p = frame_pixel(frames.last(), idx);
        let q = spec_contribution(frames.last().weight as int, p);
        lemma_contribution_nonneg(frames.last().weight as int, p);
        assert(0 <= q * p.channel(c) && q * p.channel(c) <= 255 * q) by (nonlinear_arith)
            requires
                0 <= q,
                0 <= p.channel(c) <= 255,
        ;
        assert(255 * (sum_contrib(frames.drop_last(), idx) + q) == 255 * sum_contrib(
            frames.drop_last(),
            idx,
        ) + 255 * q);
    }
}

/// Each channel of the weighted average lies in 0..=255.
pub proof fn lemma_weighted_quotient_in_range(frames: Seq<LoadedFrame>, idx: int, c: int)
    requires
        sum_contrib(frames, idx) > 0,
    ensures
        0 <= sum_channel(frames, idx, c) / sum_contrib(frames, idx) <= 255,
{
    let q = sum_contrib(frames, idx);
    let s = sum_channel(frames, idx, c);
    lemma_sum_channel_bounds(frames, idx, c);
    lemma_div_pos_is_pos(s, q);
    lemma_div_is_ordered(s, 255 * q, q);
    lemma_div_by_multiple(255, q);
}

/// Computes the Weighted-Brightness pixel at one flattened coordinate.
pub fn weighted_pixel(frames: &Vec<LoadedFrame>, idx: usize) -> (p: Pixel)
    requires
        frames@.len() <= 0x1_0000_0000,
        forall|j: int|
            0 <= j < frames@.len() ==> idx < (#[trigger] frames@[j]).image.pixels@.len(),
    ensures
        p == spec_weighted_pixel(frames@, idx as int),
{
    let mut q_acc: u128 = 0;
    let mut r_acc: u128 = 0;
    let mut g_acc: u128 = 0;
    let mut b_acc: u128 = 0;
    let mut a_acc: u128 = 0;
    let mut i: usize = 0;
    while i < frames.len()
        invariant
            0 <= i <= frames@.len() <= 0x1_0000_0000,
            forall|j: int|
                0 <= j < frames@.len() ==> idx < (#[trigger] frames@[j]).image.pixels@.len(),
            q_acc == sum_contrib(frames@.subrange(0, i as int), idx as int),
            r_acc == sum_channel(frames@.subrange(0, i as int), idx as int, 0),
            g_acc == sum_channel(frames@.subrange(0, i as int), idx as int, 1),
            b_acc == sum_channel(frames@.subrange(0, i as int), idx as int, 2),
            a_acc == sum_channel(frames@.subrange(0, i as int), idx as int, 3),
            q_acc <= i * 73948752771272407412775,
            r_acc <= 255 * q_acc,
            g_acc <= 255 * q_acc,
            b_acc <= 255 * q_acc,
            a_acc <= 255 * q_acc,
        decreases frames@.len() - i,
    {
        let f = &frames[i];
        let px: Pixel = f.image.pixels[idx];
        let e: u64 = emphasis(&px);
        proof {
            assert((f.weight as int) * (px.a as int) <= 1095216660225 && 0 <= (f.weight as int) * (
            px.a as int)) by (nonlinear_arith)
                requires
                    0 <= f.weight as int <= 4294967295,
                    0 <= px.a as int <= 255,
            ;
            assert((f.weight as int) * (px.a as int) * (e as int) <= 73948752771272407412775 && 0
                <= (f.weight as int) * (px.a as int) * (e as int)) by (nonlinear_arith)
                requires
                    0 <= (f.weight as int) * (px.a as int) <= 1095216660225,
                    0 <= e as int <= 67519747879,
            ;
        }
        let qpart: u128 = (f.weight as u128) * (px.a as u128) * (e as u128);
        proof {
            assert(qpart == spec_contribution(f.weight as int, px)) by (nonlinear_arith)
                requires
                    qpart == (f.weight as int) * (px.a as int) * (e as int),
                    e == spec_emphasis(px),
                    spec_contribution(f.weight as int, px) == (f.weight as int) * (px.a as int)
                        * spec_emphasis(px),
            ;
            assert(qpart * (px.r as int) <= 255 * qpart && qpart * (px.g as int) <= 255
                * qpart && qpart * (px.b as int) <= 255 * qpart && qpart * (px.a as int)
                <= 255 * qpart && 0 <= qpart * (px.r as int) && 0 <= qpart * (px.g as int)
                && 0 <= qpart * (px.b as int) && 0 <= qpart * (px.a as int))
                by (nonlinear_arith)
                requires
                    0 <= qpart,
                    0 <= px.r as int <= 255,
                    0 <= px.g as int <= 255,
                    0 <= px.b as int <= 255,
                    0 <= px.a as int <= 255,
            ;
            assert(frames@.subrange(0, i + 1 as int).drop_last() =~= frames@.subrange(
                0,
                i as int,
            ));
            assert(frames@.subrange(0, i + 1 as int).last() == frames@[i as int]);
        }
        q_acc = q_acc + qpart;
        r_acc = r_acc + qpart * (px.r as u128);
        g_acc = g_acc + qpart * (px.g as u128);
        b_acc = b_acc + qpart * (px.b as u128);
        a_acc = a_acc + qpart * (px.a as u128);
        i = i + 1;
    }
    proof {
        assert(frames@.subrange(0, frames@.len() as int) =~= frames@);
    }
    if q_acc == 0 {
        Pixel { r: 0, g: 0, b: 0, a: 0 }
    } else {
        proof {
            lemma_weighted_quotient_in_range(frames@, idx as int, 0);
            lemma_weighted_quotient_in_range(frames@, idx as int, 1);
            lemma_weighted_quotient_in_range(frames@, idx as int, 2);
            lemma_weighted_quotient_in_range(frames@, idx as int, 3);
        }
        Pixel {
            r: (r_acc / q_acc) as u8,
            g: (g_acc / q_acc) as u8,
            b: (b_acc / q_acc) as u8,
            a: (a_acc / q_acc) as u8,
        }
    }
}

/// Computes the Max-Light pixel at one flattened coordinate.
pub fn max_pixel(frames: &Vec<LoadedFrame>, idx: usize) -> (p: Pixel)
    requires
        forall|j: int|
            0 <= j < frames@.len() ==> idx < (#[trigger] frames@[j]).image.pixels@.len(),
    ensures
        p == spec_max_pixel(frames@, idx as int),
{
    let mut acc = Pixel { r: 0, g: 0, b: 0, a: 255 };
    let mut i: usize = 0;
    while i < frames.len()
        invariant
            0 <= i <= frames@.len(),
            forall|j: int|
                0 <= j < frames@.len() ==> idx < (#[trigger] frames@[j]).image.pixels@.len(),
            acc == spec_max_pixel(frames@.subrange(0, i as int), idx as int),
        decreases frames@.len() - i,
    {
        let px: Pixel = frames[i].image.pixels[idx];
        acc = blend_max(&acc, &px);
        proof {
            assert(frames@.subrange(0, i + 1 as int).drop_last() =~= frames@.subrange(
                0,
                i as int,
            ));
            assert(frames@.subrange(0, i + 1 as int).last() == frames@[i as int]);
        }
        i = i + 1;
    }
    proof {
        assert(frames@.subrange(0, frames@.len() as int) =~= frames@);
    }
    acc
}

} // verus!
