//! The composite operation end to end: decode the selected frames, blend
//! them under the chosen strategy, and render the result as PNG bytes under
//! a timestamped file name. Reading frame files and writing the output are
//! the caller's concern; the engine works on bytes.

use crate::codec::{decode_frame, decoded_rgba, png_encoded, render_png, spec_rgba_bytes};
use crate::compose::{compose_frames, spec_composite_pixels, spec_total_weight, BlendStrategy};
use crate::error::EngineError;
use crate::frame::{dims_match, Image, LoadedFrame};
use crate::paths::{generate_timestamped_path, spec_timestamped_path};
use vstd::prelude::*;

verus! {

/// One selected frame as it comes from storage: the file's bytes and the
/// weight the caller assigned.
#[derive(Debug)]
pub struct EncodedFrame {
    pub bytes: Vec<u8>,
    pub weight: u32,
}

/// The decoded frames correspond one to one to the encoded inputs: same
/// count, same weights, and each pixel grid is exactly what the decoder
/// yields for the frame's bytes.
pub open spec fn frames_decode(encoded: Seq<EncodedFrame>, frames: Seq<LoadedFrame>) -> bool {
    &&& frames.len() == encoded.len()
    &&& forall|i: int|
        0 <= i < encoded.len() ==> {
            &&& (#[trigger] frames[i]).well_formed()
            &&& frames[i].weight == encoded[i].weight
            &&& frames[i].image.width <= u32::MAX
            &&& frames[i].image.height <= u32::MAX
            &&& 4 * (frames[i].image.width as int) * (frames[i].image.height as int) <= usize::MAX
            &&& decoded_rgba(encoded[i].bytes@) == Some(
                (
                    frames[i].image.width as u32,
                    frames[i].image.height as u32,
                    spec_rgba_bytes(frames[i].image.pixels@),
                ),
            )
        }
}

/// Decodes every selected frame, pairing each pixel grid with its weight.
/// One unreadable frame fails the whole load: a silent drop would quietly
/// change the composite.
pub fn load_frames(encoded: &Vec<EncodedFrame>) -> (r: Result<Vec<LoadedFrame>, EngineError>)
    ensures
        match r {
            Result::Ok(frames) => frames_decode(encoded@, frames@),
            Result::Err(e) => e == EngineError::DecodeError && exists|i: int|
                0 <= i < encoded@.len() && decoded_rgba((#[trigger] encoded@[i]).bytes@) is None,
        },
{
    let mut frames: Vec<LoadedFrame> = Vec::new();
    let mut i: usize = 0;
    while i < encoded.len()
        invariant
            0 <= i <= encoded@.len(),
            frames_decode(encoded@.subrange(0, i as int), frames@),
        decreases encoded@.len() - i,
    {
        match decode_frame(&encoded[i].bytes) {
            Result::Ok(img) => {
                proof {
                    assert(4 * (img.width as int) * (img.height as int) == 4 * img.pixels@.len())
                        by (nonlinear_arith)
                        requires
                            img.pixels@.len() == (img.width as int) * (img.height as int),
                    ;
                    assert(spec_rgba_bytes(img.pixels@).len() == 4 * img.pixels@.len());
                }
                let weight = encoded[i].weight;
                frames.push(LoadedFrame { image: img, weight });
                proof {
                    assert(encoded@.subrange(0, i + 1 as int).drop_last() =~= encoded@.subrange(
                        0,
                        i as int,
                    ));
                }
            },
            Result::Err(_) => {
                return Err(EngineError::DecodeError);
            },
        }
        i = i + 1;
    }
    proof {
        assert(encoded@.subrange(0, encoded@.len() as int) =~= encoded@);
    }
    Ok(frames)
}

/// A finished composite: the image, its PNG encoding, and the timestamped
/// file name it should be stored under.
#[derive(Debug)]
pub struct CompositeOutput {
    pub image: Image,
    pub png: Vec<u8>,
    pub file_name: String,
}

/// Creates the long-exposure composite of the selected frames.
///
/// Decodes every frame, blends them under the strategy, and encodes the
/// result as PNG bytes named `long_exposure_image_<timestamp>.png`. Each
/// failure names its stage: `DecodeError` for an unreadable frame,
/// `EmptyFrameSet` for an empty selection, `DimensionMismatch` for frames of
/// unequal size, `InvalidWeights` for an all-zero weighting under
/// Weighted-Brightness, and `IoError` when PNG encoding fails.
pub fn create_long_exposure_image(encoded: &Vec<EncodedFrame>, strategy: BlendStrategy) -> (r:
    Result<CompositeOutput, EngineError>)
    requires
        encoded@.len() <= 0x1_0000_0000,
    ensures
        match r {
            Result::Ok(out) => exists|frames: Seq<LoadedFrame>|
                {
                    &&& #[trigger] frames_decode(encoded@, frames)
                    &&& frames.len() > 0
                    &&& dims_match(frames)
                    &&& (strategy is WeightedBrightness ==> spec_total_weight(frames) > 0)
                    &&& out.image.well_formed()
                    &&& out.image.width == frames[0].image.width
                    &&& out.image.height == frames[0].image.height
                    &&& out.image.pixels@ == spec_composite_pixels(
                        frames,
                        strategy,
                        frames[0].image.width * frames[0].image.height,
                    )
                    &&& png_encoded(
                        out.image.width as int,
                        out.image.height as int,
                        spec_rgba_bytes(out.image.pixels@),
                    ) == Some(out.png@)
                    &&& exists|ts: Seq<char>|
                        ts.len() >= 14 && out.file_name@ == spec_timestamped_path(
                            Seq::<char>::empty(),
                            "long_exposure_image"@,
                            ts,
                            "png"@,
                        )
                },
            Result::Err(e) => {
                &&& (e == EngineError::DecodeError ==> exists|i: int|
                    0 <= i < encoded@.len() && decoded_rgba(
                        (#[trigger] encoded@[i]).bytes@,
                    ) is None)
                &&& (e == EngineError::EmptyFrameSet <==> encoded@.len() == 0)
                &&& (e == EngineError::DimensionMismatch ==> exists|frames: Seq<LoadedFrame>|
                    #[trigger] frames_decode(encoded@, frames) && !dims_match(frames))
                &&& (e == EngineError::InvalidWeights ==> exists|frames: Seq<LoadedFrame>|
                    #[trigger] frames_decode(encoded@, frames) && strategy is WeightedBrightness
                        && spec_total_weight(frames) == 0)
                &&& (e == EngineError::IoError ==> exists|frames: Seq<LoadedFrame>|
                    #[trigger] frames_decode(encoded@, frames) && frames.len() > 0 && png_encoded(
                        frames[0].image.width as int,
                        frames[0].image.height as int,
                        spec_rgba_bytes(
                            spec_composite_pixels(
                                frames,
                                strategy,
                                frames[0].image.width * frames[0].image.height,
                            ),
                        ),
                    ) is None)
                &&& e != EngineError::NotFound
            },
        },
{
    let frames = match load_frames(encoded) {
        Result::Ok(frames) => frames,
        Result::Err(e) => {
            proof {
                if encoded@.len() == 0 {
                    assert(frames_decode(encoded@, Seq::<LoadedFrame>::empty()));
                    assert(exists|i: int|
                        0 <= i < encoded@.len() && decoded_rgba(
                            (#[trigger] encoded@[i]).bytes@,
                        ) is None);
                    assert(false);
                }
            }
            return Err(e);
        },
    };
    let img = match compose_frames(&frames, strategy) {
        Result::Ok(img) => img,
        Result::Err(e) => {
            return Err(e);
        },
    };
    proof {
        assert(frames@.len() > 0 && frames@[0].well_formed());
        crate::compose::lemma_total_weight_nonneg(frames@);
    }
    let png = match render_png(&img) {
        Result::Ok(png) => png,
        Result::Err(e) => {
            return Err(e);
        },
    };
    let file_name = generate_timestamped_path("", "long_exposure_image", "png");
    proof {
        reveal_strlit("");
        assert(""@ =~= Seq::<char>::empty());
        let ts0 = choose|ts: Seq<char>|
            ts.len() >= 14 && file_name@ == spec_timestamped_path(
                ""@,
                "long_exposure_image"@,
                ts,
                "png"@,
            );
        assert(file_name@ == spec_timestamped_path(
            Seq::<char>::empty(),
            "long_exposure_image"@,
            ts0,
            "png"@,
        ));
    }
    Ok(CompositeOutput { image: img, png, file_name })
}

} // verus!
