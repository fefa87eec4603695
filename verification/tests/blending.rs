//! Tests of the blending strategies on concrete frames.

use long_exposure::compose::{compose_frames, BlendStrategy};
use long_exposure::error::EngineError;
use long_exposure::frame::{Image, LoadedFrame};
use long_exposure::pixel::{blend_max, Pixel};

fn px(r: u8, g: u8, b: u8, a: u8) -> Pixel {
    Pixel { r, g, b, a }
}

fn frame(width: usize, height: usize, pixels: Vec<Pixel>, weight: u32) -> LoadedFrame {
    LoadedFrame {
        image: Image {
            width,
            height,
            pixels,
        },
        weight,
    }
}

#[test]
fn blend_max_takes_channelwise_maximum() {
    let a = px(10, 0, 200, 17);
    let b = px(5, 30, 100, 255);
    let out = blend_max(&a, &b);
    assert_eq!(out, px(10, 30, 200, 255));
}

#[test]
fn max_light_scenario_three_frames() {
    // Three 2x2 frames; pixel (0,0) has red 10 in the first frame and red 5
    // in the second, so the composite keeps red 10 there.
    let f1 = frame(
        2,
        2,
        vec![px(10, 0, 0, 0), px(0, 0, 0, 0), px(0, 0, 0, 0), px(0, 0, 0, 0)],
        1,
    );
    let f2 = frame(
        2,
        2,
        vec![px(5, 0, 0, 0), px(0, 0, 0, 0), px(0, 0, 0, 0), px(0, 0, 0, 0)],
        1,
    );
    let f3 = frame(
        2,
        2,
        vec![px(0, 0, 0, 0), px(0, 7, 0, 0), px(0, 0, 9, 0), px(1, 2, 3, 4)],
        1,
    );
    let out = compose_frames(&vec![f1, f2, f3], BlendStrategy::MaxLight).unwrap();
    assert_eq!(out.width, 2);
    assert_eq!(out.height, 2);
    assert_eq!(out.pixels[0], px(10, 0, 0, 255));
    assert_eq!(out.pixels[1], px(0, 7, 0, 255));
    assert_eq!(out.pixels[2], px(0, 0, 9, 255));
    assert_eq!(out.pixels[3], px(1, 2, 3, 255));
}

#[test]
fn max_light_dominates_every_input_channel() {
    let f1 = frame(2, 1, vec![px(1, 200, 3, 40), px(90, 80, 70, 60)], 1);
    let f2 = frame(2, 1, vec![px(100, 2, 30, 255), px(9, 8, 200, 0)], 1);
    let frames = vec![f1, f2];
    let out = compose_frames(&frames, BlendStrategy::MaxLight).unwrap();
    for idx in 0..2 {
        let o = out.pixels[idx];
        for f in &frames {
            let p = f.image.pixels[idx];
            assert!(o.r >= p.r && o.g >= p.g && o.b >= p.b && o.a >= p.a);
        }
        assert_eq!(o.a, 255);
    }
}

#[test]
fn weighted_scenario_two_white_frames() {
    // Two identical 1x1 opaque white frames with equal weights compose to
    // white with full alpha.
    let f1 = frame(1, 1, vec![px(255, 255, 255, 255)], 1);
    let f2 = frame(1, 1, vec![px(255, 255, 255, 255)], 1);
    let out = compose_frames(&vec![f1, f2], BlendStrategy::WeightedBrightness).unwrap();
    assert_eq!(out.pixels[0], px(255, 255, 255, 255));
}

#[test]
fn weighted_scenario_transparent_frame_contributes_nothing() {
    // One fully transparent frame and one opaque frame: the output equals the
    // opaque frame, since zero alpha zeroes the transparent frame's weight.
    let transparent = frame(2, 1, vec![px(200, 200, 200, 0), px(9, 9, 9, 0)], 1);
    let visible = frame(2, 1, vec![px(200, 150, 100, 255), px(40, 50, 60, 255)], 1);
    let expected = visible.image.pixels.clone();
    let out = compose_frames(&vec![transparent, visible], BlendStrategy::WeightedBrightness)
        .unwrap();
    assert_eq!(out.pixels, expected);
}

#[test]
fn weighted_zero_weights_are_rejected() {
    let f1 = frame(1, 1, vec![px(255, 255, 255, 255)], 0);
    let f2 = frame(1, 1, vec![px(1, 2, 3, 255)], 0);
    let r = compose_frames(&vec![f1, f2], BlendStrategy::WeightedBrightness);
    assert_eq!(r.unwrap_err(), EngineError::InvalidWeights);
}

#[test]
fn max_light_ignores_zero_weights() {
    // Max-Light pays no attention to weights, even all-zero ones.
    let f1 = frame(1, 1, vec![px(10, 20, 30, 40)], 0);
    let out = compose_frames(&vec![f1], BlendStrategy::MaxLight).unwrap();
    assert_eq!(out.pixels[0], px(10, 20, 30, 255));
}

#[test]
fn empty_frame_set_is_rejected() {
    let frames: Vec<LoadedFrame> = Vec::new();
    for strategy in [BlendStrategy::MaxLight, BlendStrategy::WeightedBrightness] {
        let r = compose_frames(&frames, strategy);
        assert_eq!(r.unwrap_err(), EngineError::EmptyFrameSet);
    }
}

#[test]
fn mismatched_dimensions_are_rejected() {
    let f1 = frame(1, 1, vec![px(1, 1, 1, 255)], 1);
    let f2 = frame(2, 1, vec![px(1, 1, 1, 255), px(2, 2, 2, 255)], 1);
    let r = compose_frames(&vec![f1, f2], BlendStrategy::MaxLight);
    assert_eq!(r.unwrap_err(), EngineError::DimensionMismatch);
}

#[test]
fn single_frame_identity_both_strategies() {
    // A single bright opaque frame comes back unchanged; Max-Light only
    // forces the alpha fully opaque.
    let pixels = vec![px(10, 20, 30, 255), px(200, 150, 100, 200)];
    let f = frame(2, 1, pixels.clone(), 7);
    let out = compose_frames(&vec![f], BlendStrategy::WeightedBrightness).unwrap();
    assert_eq!(out.pixels, pixels);

    let f = frame(2, 1, pixels.clone(), 7);
    let out = compose_frames(&vec![f], BlendStrategy::MaxLight).unwrap();
    assert_eq!(out.pixels[0], px(10, 20, 30, 255));
    assert_eq!(out.pixels[1], px(200, 150, 100, 255));
}

#[test]
fn weighted_dark_pixels_yield_transparent_black() {
    // A pixel too dark for any brightness emphasis gathers no weight at all,
    // so the composite leaves it fully transparent black.
    let f = frame(1, 1, vec![px(0, 0, 0, 255)], 1);
    let out = compose_frames(&vec![f], BlendStrategy::WeightedBrightness).unwrap();
    assert_eq!(out.pixels[0], px(0, 0, 0, 0));
}

#[test]
fn weighted_scale_invariance_on_concrete_frames() {
    // Scaling every weight by the same constant leaves the output unchanged.
    let pixels1 = vec![px(250, 240, 230, 255)];
    let pixels2 = vec![px(60, 70, 80, 255)];
    let once = compose_frames(
        &vec![
            frame(1, 1, pixels1.clone(), 1),
            frame(1, 1, pixels2.clone(), 2),
        ],
        BlendStrategy::WeightedBrightness,
    )
    .unwrap();
    let thrice = compose_frames(
        &vec![
            frame(1, 1, pixels1.clone(), 3),
            frame(1, 1, pixels2.clone(), 6),
        ],
        BlendStrategy::WeightedBrightness,
    )
    .unwrap();
    assert_eq!(once.pixels, thrice.pixels);
}

#[test]
fn composition_is_deterministic_across_worker_pools() {
    // The composite is a pure function of the frame set: worker count and
    // scheduling order never show in the output.
    let build = || {
        vec![
            frame(
                2,
                2,
                vec![
                    px(10, 200, 30, 255),
                    px(90, 80, 70, 128),
                    px(250, 1, 2, 255),
                    px(0, 0, 0, 0),
                ],
                3,
            ),
            frame(
                2,
                2,
                vec![
                    px(99, 98, 97, 255),
                    px(1, 2, 3, 255),
                    px(4, 5, 6, 64),
                    px(255, 255, 255, 255),
                ],
                5,
            ),
        ]
    };
    let single = rayon::ThreadPoolBuilder::new()
        .num_threads(1)
        .build()
        .unwrap();
    let many = rayon::ThreadPoolBuilder::new()
        .num_threads(4)
        .build()
        .unwrap();
    for strategy in [BlendStrategy::MaxLight, BlendStrategy::WeightedBrightness] {
        let a = single
            .install(|| compose_frames(&build(), strategy))
            .unwrap();
        let b = many.install(|| compose_frames(&build(), strategy)).unwrap();
        assert_eq!(a.pixels, b.pixels);
    }
}

#[test]
fn weighted_huge_weights_do_not_overflow() {
    let f1 = frame(1, 1, vec![px(255, 255, 255, 255)], u32::MAX);
    let f2 = frame(1, 1, vec![px(255, 255, 255, 255)], u32::MAX);
    let out = compose_frames(&vec![f1, f2], BlendStrategy::WeightedBrightness).unwrap();
    assert_eq!(out.pixels[0], px(255, 255, 255, 255));
}

#[test]
fn error_messages_name_the_failure() {
    assert_eq!(
        EngineError::InvalidWeights.message(),
        "total frame weight cannot be zero"
    );
    assert_eq!(EngineError::EmptyFrameSet.message(), "no images were chosen");
    assert_eq!(
        EngineError::NotFound.message(),
        "no frames were found for the selection"
    );
}
