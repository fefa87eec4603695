//! The pixel reducer: applies one blending strategy to every coordinate of
//! the shared frame dimensions and assembles the composite image.
//!
//! Every coordinate's result is a pure function of the frame set and the
//! strategy, so the per-pixel work is handed to a parallel worker pool; the
//! output is identical whatever the worker count or scheduling order.

use crate::blend::{max_pixel, spec_max_pixel, spec_weighted_pixel, weighted_pixel};
use crate::error::EngineError;
use crate::frame::{dims_match, Image, LoadedFrame};
use crate::pixel::Pixel;
use rayon::iter::{IntoParallelIterator, ParallelIterator};
use vstd::prelude::*;

verus! {

/// The two ways to combine the selected frames into one image.
#[derive(Clone, Copy, Debug, PartialEq, Eq, Structural)]
pub enum BlendStrategy {
    /// Per-channel maximum over all frames; the result is fully opaque.
    MaxLight,
    /// Brightness- and alpha-weighted average across frames.
    WeightedBrightness,
}

/// The blended pixel at one flattened coordinate under the given strategy.
pub open spec fn spec_blend_pixel(
    frames: Seq<LoadedFrame>,
    strategy: BlendStrategy,
    idx: int,
) -> Pixel {
    match strategy {
        BlendStrategy::MaxLight => spec_max_pixel(frames, idx),
        BlendStrategy::WeightedBrightness => spec_weighted_pixel(frames, idx),
    }
}

/// The whole composite pixel grid, coordinate by coordinate.
pub open spec fn spec_composite_pixels(
    frames: Seq<LoadedFrame>,
    strategy: BlendStrategy,
    count: int,
) -> Seq<Pixel> {
    Seq::new(count as nat, |i: int| spec_blend_pixel(frames, strategy, i))
}

/// The sum of all frame weights.
pub open spec fn spec_total_weight(frames: Seq<LoadedFrame>) -> int
    decreases frames.len(),
{
    if frames.len() == 0 {
        0
    } else {
        spec_total_weight(frames.drop_last()) + frames.last().weight
    }
}

/// The total weight is never negative.
pub proof fn lemma_total_weight_nonneg(frames: Seq<LoadedFrame>)
    ensures
        0 <= spec_total_weight(frames),
    decreases frames.len(),
{
    if frames.len() > 0 {
        lemma_total_weight_nonneg(frames.drop_last());
    }
}

/// Composition is deterministic: any two pixel grids composed from the same
/// frames with the same strategy are identical, because each coordinate is a
/// pure function of the frame set alone — worker count and scheduling order
/// cannot show in the output.
pub proof fn lemma_composition_deterministic(
    frames: Seq<LoadedFrame>,
    strategy: BlendStrategy,
    a: Seq<Pixel>,
    b: Seq<Pixel>,
    count: int,
)
    requires
        a == spec_composite_pixels(frames, strategy, count),
        b == spec_composite_pixels(frames, strategy, count),
    ensures
        a == b,
{
}

/// Computes the blended pixel at one flattened coordinate.
pub fn blend_pixel_at(frames: &Vec<LoadedFrame>, strategy: BlendStrategy, idx: usize) -> (p: Pixel)
    requires
        frames@.len() <= 0x1_0000_0000,
        forall|j: int|
            0 <= j < frames@.len() ==> idx < (#[trigger] frames@[j]).image.pixels@.len(),
    ensures
        p == spec_blend_pixel(frames@, strategy, idx as int),
{
    match strategy {
        BlendStrategy::MaxLight => max_pixel(frames, idx),
        BlendStrategy::WeightedBrightness => weighted_pixel(frames, idx),
    }
}

/// Relies on rayon: an indexed parallel iterator over `0..count`, mapped and
/// collected into a `Vec`, yields exactly one result per index, in index
/// order; the closure only calls the verified per-pixel blend.
#[verifier::external_body]
fn par_blend_pixels(frames: &Vec<LoadedFrame>, strategy: BlendStrategy, count: usize) -> (out: Vec<
    Pixel,
>)
    requires
        frames@.len() <= 0x1_0000_0000,
        forall|j: int|
            0 <= j < frames@.len() ==> count <= (#[trigger] frames@[j]).image.pixels@.len(),
    ensures
        out@.len() == count,
        forall|i: int|
            0 <= i < count ==> out@[i] == spec_blend_pixel(frames@, strategy, i),
{
    (0..count).into_par_iter().map(|idx| blend_pixel_at(frames, strategy, idx)).collect()
}

/// Blends the loaded frames into one composite image.
///
/// Fails with `EmptyFrameSet` when no frames were loaded, with
/// `DimensionMismatch` when a frame's size differs from the first frame's,
/// and with `InvalidWeights` when Weighted-Brightness is asked for but the
/// weights sum to zero. Otherwise the result has the shared dimensions and
/// holds, at every coordinate, exactly the blended pixel of the strategy.
pub fn compose_frames(frames: &Vec<LoadedFrame>, strategy: BlendStrategy) -> (r: Result<
    Image,
    EngineError,
>)
    requires
        frames@.len() <= 0x1_0000_0000,
        forall|i: int| 0 <= i < frames@.len() ==> (#[trigger] frames@[i]).well_formed(),
    ensures
        r is Err <==> (frames@.len() == 0 || !dims_match(frames@) || (strategy
            is WeightedBrightness && spec_total_weight(frames@) == 0)),
        match r {
            Result::Ok(img) => {
                &&& img.well_formed()
                &&& img.width == frames@[0].image.width
                &&& img.height == frames@[0].image.height
                &&& img.pixels@ == spec_composite_pixels(
                    frames@,
                    strategy,
                    frames@[0].image.width * frames@[0].image.height,
                )
            },
            Result::Err(e) => {
                &&& (e == EngineError::EmptyFrameSet <==> frames@.len() == 0)
                &&& (e == EngineError::DimensionMismatch <==> frames@.len() > 0 && !dims_match(
                    frames@,
                ))
                &&& (e == EngineError::InvalidWeights <==> frames@.len() > 0 && dims_match(frames@)
                    && strategy is WeightedBrightness && spec_total_weight(frames@) == 0)
            },
        },
{
    if frames.len() == 0 {
        return Err(EngineError::EmptyFrameSet);
    }
    let width = frames[0].image.width;
    let height = frames[0].image.height;
    let mut i: usize = 1;
    while i < frames.len()
        invariant
            1 <= i <= frames@.len(),
            width == frames@[0].image.width,
            height == frames@[0].image.height,
            forall|j: int|
                0 <= j < i ==> (#[trigger] frames@[j]).image.width == width
                    && frames@[j].image.height == height,
        decreases frames@.len() - i,
    {
        if frames[i].image.width != width || frames[i].image.height != height {
            return Err(EngineError::DimensionMismatch);
        }
        i = i + 1;
    }
    if matches!(strategy, BlendStrategy::WeightedBrightness) {
        let mut total: u64 = 0;
        let mut k: usize = 0;
        while k < frames.len()
            invariant
                0 <= k <= frames@.len() <= 0x1_0000_0000,
                total == spec_total_weight(frames@.subrange(0, k as int)),
                total <= k * 4294967295,
            decreases frames@.len() - k,
        {
            proof {
                assert(frames@.subrange(0, k + 1 as int).drop_last() =~= frames@.subrange(
                    0,
                    k as int,
                ));
                assert(frames@.subrange(0, k + 1 as int).last() == frames@[k as int]);
            }
            total = total + (frames[k].weight as u64);
            k = k + 1;
        }
        proof {
            assert(frames@.subrange(0, frames@.len() as int) =~= frames@);
        }
        if total == 0 {
            return Err(EngineError::InvalidWeights);
        }
    }
    let count = frames[0].image.pixel_count();
    proof {
        assert forall|j: int| 0 <= j < frames@.len() implies count <= (
        #[trigger] frames@[j]).image.pixels@.len() by {
            assert(frames@[j].image.width * frames@[j].image.height == frames@[0].image.width
                * frames@[0].image.height) by (nonlinear_arith)
                requires
                    frames@[j].image.width == frames@[0].image.width,
                    frames@[j].image.height == frames@[0].image.height,
            ;
        }
    }
    let pixels = par_blend_pixels(frames, strategy, count);
    proof {
        assert(pixels@ =~= spec_composite_pixels(frames@, strategy, count as int));
    }
    Ok(Image { width, height, pixels })
}

} // verus!
