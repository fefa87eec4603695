//! Tests of the end-to-end pipeline: selection, PNG decode and encode, and
//! the whole composite operation on real PNG bytes.

use long_exposure::codec::{decode_frame, render_png};
use long_exposure::compose::BlendStrategy;
use long_exposure::engine::{create_long_exposure_image, load_frames, EncodedFrame};
use long_exposure::error::EngineError;
use long_exposure::frame::Image;
use long_exposure::names::{str_ends_with, str_starts_with};
use long_exposure::pixel::Pixel;
use long_exposure::project::{
    find_thumbnail, frames_dir_for_project, metadata_file_path, resolve_video_extension,
    should_skip_processing, uploaded_video_file_name, ProjectMetadata,
};
use long_exposure::select::{select_by_indices, select_frames, FrameData};

fn px(r: u8, g: u8, b: u8, a: u8) -> Pixel {
    Pixel { r, g, b, a }
}

fn png_of(width: usize, height: usize, pixels: Vec<Pixel>) -> Vec<u8> {
    let img = Image {
        width,
        height,
        pixels,
    };
    render_png(&img).unwrap()
}

#[test]
fn png_round_trip_preserves_pixels() {
    let pixels = vec![px(1, 2, 3, 255), px(250, 150, 50, 128), px(0, 0, 0, 0), px(9, 8, 7, 6)];
    let png = png_of(2, 2, pixels.clone());
    let img = decode_frame(&png).unwrap();
    assert_eq!(img.width, 2);
    assert_eq!(img.height, 2);
    assert_eq!(img.pixels, pixels);
}

#[test]
fn decode_frame_rejects_garbage() {
    let r = decode_frame(&vec![1, 2, 3, 4, 5]);
    assert_eq!(r.unwrap_err(), EngineError::DecodeError);
}

#[test]
fn load_frames_fails_fast_on_one_bad_frame() {
    let good = png_of(1, 1, vec![px(200, 200, 200, 255)]);
    let frames = vec![
        EncodedFrame { bytes: good, weight: 1 },
        EncodedFrame { bytes: vec![0, 1, 2], weight: 1 },
    ];
    assert_eq!(load_frames(&frames).unwrap_err(), EngineError::DecodeError);
}

#[test]
fn create_long_exposure_image_max_light() {
    let f1 = png_of(2, 1, vec![px(10, 0, 0, 255), px(0, 0, 90, 255)]);
    let f2 = png_of(2, 1, vec![px(5, 60, 0, 255), px(0, 0, 20, 255)]);
    let encoded = vec![
        EncodedFrame { bytes: f1, weight: 1 },
        EncodedFrame { bytes: f2, weight: 1 },
    ];
    let out = create_long_exposure_image(&encoded, BlendStrategy::MaxLight).unwrap();
    assert_eq!(out.image.pixels, vec![px(10, 60, 0, 255), px(0, 0, 90, 255)]);
    assert!(str_starts_with(&out.file_name, "long_exposure_image_"));
    assert!(str_ends_with(&out.file_name, ".png"));
    // The PNG bytes decode back to the composite.
    let round = decode_frame(&out.png).unwrap();
    assert_eq!(round.pixels, out.image.pixels);
}

#[test]
fn create_long_exposure_image_weighted() {
    // A transparent frame and an opaque one: the opaque frame wins outright.
    let f1 = png_of(1, 1, vec![px(123, 45, 67, 0)]);
    let f2 = png_of(1, 1, vec![px(200, 150, 100, 255)]);
    let encoded = vec![
        EncodedFrame { bytes: f1, weight: 1 },
        EncodedFrame { bytes: f2, weight: 1 },
    ];
    let out = create_long_exposure_image(&encoded, BlendStrategy::WeightedBrightness).unwrap();
    assert_eq!(out.image.pixels, vec![px(200, 150, 100, 255)]);
}

#[test]
fn create_long_exposure_image_error_stages() {
    let empty: Vec<EncodedFrame> = Vec::new();
    assert_eq!(
        create_long_exposure_image(&empty, BlendStrategy::MaxLight).unwrap_err(),
        EngineError::EmptyFrameSet
    );

    let bad = vec![EncodedFrame { bytes: vec![9, 9, 9], weight: 1 }];
    assert_eq!(
        create_long_exposure_image(&bad, BlendStrategy::MaxLight).unwrap_err(),
        EngineError::DecodeError
    );

    let small = png_of(1, 1, vec![px(1, 1, 1, 255)]);
    let wide = png_of(2, 1, vec![px(1, 1, 1, 255), px(2, 2, 2, 255)]);
    let mismatched = vec![
        EncodedFrame { bytes: small.clone(), weight: 1 },
        EncodedFrame { bytes: wide, weight: 1 },
    ];
    assert_eq!(
        create_long_exposure_image(&mismatched, BlendStrategy::MaxLight).unwrap_err(),
        EngineError::DimensionMismatch
    );

    let zero_weighted = vec![EncodedFrame { bytes: small, weight: 0 }];
    assert_eq!(
        create_long_exposure_image(&zero_weighted, BlendStrategy::WeightedBrightness).unwrap_err(),
        EngineError::InvalidWeights
    );
}

#[test]
fn select_frames_builds_the_file_names() {
    let data = vec![
        FrameData { frame_number: 1, frame_weight: 10 },
        FrameData { frame_number: 12, frame_weight: 20 },
    ];
    let sel = select_frames(&data).unwrap();
    assert_eq!(sel.len(), 2);
    assert_eq!(sel[0].file_name, "ffout_0001.png");
    assert_eq!(sel[0].frame_number, 1);
    assert_eq!(sel[0].weight, 10);
    assert_eq!(sel[1].file_name, "ffout_0012.png");
    assert_eq!(sel[1].weight, 20);
}

#[test]
fn select_frames_rejects_an_empty_selection() {
    let data: Vec<FrameData> = Vec::new();
    assert_eq!(select_frames(&data).unwrap_err(), EngineError::NotFound);
}

#[test]
fn select_by_indices_keeps_listed_matches_in_order() {
    let listing = vec![
        "ffout_0001.png".to_string(),
        "junk.txt".to_string(),
        "ffout_0002.png".to_string(),
        "ffout_0003.png".to_string(),
    ];
    let sel = select_by_indices(&listing, &vec![3, 1]).unwrap();
    assert_eq!(sel.len(), 2);
    assert_eq!(sel[0].file_name, "ffout_0001.png");
    assert_eq!(sel[0].frame_number, 1);
    assert_eq!(sel[0].weight, 1);
    assert_eq!(sel[1].file_name, "ffout_0003.png");
    assert_eq!(sel[1].frame_number, 3);
}

#[test]
fn select_by_indices_rejects_an_empty_resolution() {
    let listing = vec!["ffout_0001.png".to_string(), "junk.txt".to_string()];
    assert_eq!(
        select_by_indices(&listing, &vec![7]).unwrap_err(),
        EngineError::NotFound
    );
    let empty: Vec<String> = Vec::new();
    assert_eq!(
        select_by_indices(&empty, &vec![1]).unwrap_err(),
        EngineError::NotFound
    );
}

fn metadata() -> ProjectMetadata {
    ProjectMetadata {
        project_name: "demo".to_string(),
        fps: 24,
        scale: "1600:-1".to_string(),
        video_file_extension: "mp4".to_string(),
        latest_long_exposure_image_name: None,
    }
}

#[test]
fn skip_processing_only_on_matching_settings() {
    let m = metadata();
    assert!(should_skip_processing(&m, 24, &"1600:-1".to_string()));
    assert!(!should_skip_processing(&m, 25, &"1600:-1".to_string()));
    assert!(!should_skip_processing(&m, 24, &"720:-1".to_string()));
}

#[test]
fn video_extension_resolution_order() {
    let m = metadata();
    assert_eq!(
        resolve_video_extension(Some("mov".to_string()), Some(&m)),
        Some("mov".to_string())
    );
    assert_eq!(resolve_video_extension(None, Some(&m)), Some("mp4".to_string()));
    assert_eq!(resolve_video_extension(None, None), None);
}

#[test]
fn project_paths_are_built_from_the_roots() {
    assert_eq!(
        metadata_file_path("./media/outputs/", "p1"),
        "./media/outputs/p1/metadata.json"
    );
    assert_eq!(
        frames_dir_for_project("./media/outputs/", "p1"),
        "./media/outputs/p1/frames/"
    );
    assert_eq!(uploaded_video_file_name("p1", "mp4"), "p1.mp4");
}

#[test]
fn thumbnail_prefers_the_stored_composite() {
    let composite = "long_exposure_image_20240101000000.png".to_string();
    assert_eq!(
        find_thumbnail("out/p1", Some(&composite)),
        "out/p1/long_exposure_image_20240101000000.png"
    );
    assert_eq!(
        find_thumbnail("out/p1", None),
        "out/p1/frames/ffout_thumbnail_0001.webp"
    );
}
