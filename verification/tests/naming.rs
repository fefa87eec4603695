//! Tests of frame file names, index parsing, path building and URL
//! conversion.

use long_exposure::math::{isqrt, pow9};
use long_exposure::names::{
    decimal_digits, find_long_exposure_image, find_upload_for_project, frame_file_name,
    is_long_exposure_image_name, parse_frame_index, str_ends_with, str_starts_with,
};
use long_exposure::paths::{
    convert_image_path_to_serving_url, ensure_trailing_slash, generate_timestamped_path, path_join,
    timestamped_path,
};

#[test]
fn isqrt_exact_values() {
    assert_eq!(isqrt(0), 0);
    assert_eq!(isqrt(1), 1);
    assert_eq!(isqrt(15), 3);
    assert_eq!(isqrt(16), 4);
    assert_eq!(isqrt(u128::MAX), u64::MAX);
}

#[test]
fn pow9_exact_values() {
    assert_eq!(pow9(0), 0);
    assert_eq!(pow9(1), 1);
    assert_eq!(pow9(2), 512);
    assert_eq!(pow9(255), 4558916353692287109375);
}

#[test]
fn decimal_digits_formats_plainly() {
    assert_eq!(decimal_digits(0), "0");
    assert_eq!(decimal_digits(7), "7");
    assert_eq!(decimal_digits(12345), "12345");
    assert_eq!(decimal_digits(u64::MAX), "18446744073709551615");
}

#[test]
fn frame_file_name_zero_pads_to_four_digits() {
    assert_eq!(frame_file_name(1), "ffout_0001.png");
    assert_eq!(frame_file_name(0), "ffout_0000.png");
    assert_eq!(frame_file_name(42), "ffout_0042.png");
    assert_eq!(frame_file_name(9999), "ffout_9999.png");
    assert_eq!(frame_file_name(12345), "ffout_12345.png");
}

#[test]
fn parse_frame_index_reads_trailing_suffix() {
    assert_eq!(parse_frame_index("ffout_0042.png"), Some(42));
    assert_eq!(parse_frame_index("ffout_0001.png"), Some(1));
    assert_eq!(parse_frame_index("clip7"), Some(7));
    assert_eq!(parse_frame_index("a12.34.png"), Some(34));
}

#[test]
fn parse_frame_index_rejects_names_without_suffix() {
    assert_eq!(parse_frame_index("noindex.png"), None);
    assert_eq!(parse_frame_index(""), None);
    assert_eq!(parse_frame_index(".png"), None);
    assert_eq!(parse_frame_index("frame_a.png"), None);
}

#[test]
fn parse_frame_index_rejects_oversized_values() {
    // Twenty-one digits cannot fit a 64-bit index.
    assert_eq!(parse_frame_index("ffout_184467440737095516159.png"), None);
    // The largest value that fits still parses.
    assert_eq!(
        parse_frame_index("ffout_18446744073709551615.png"),
        Some(u64::MAX)
    );
}

#[test]
fn prefix_and_suffix_checks() {
    assert!(str_starts_with("long_exposure_image_x.png", "long_exposure_image_"));
    assert!(!str_starts_with("short", "long_exposure_image_"));
    assert!(str_ends_with("a.png", ".png"));
    assert!(!str_ends_with("a.webp", ".png"));
    assert!(str_starts_with("anything", ""));
    assert!(str_ends_with("anything", ""));
}

#[test]
fn long_exposure_name_recognition() {
    assert!(is_long_exposure_image_name(
        "long_exposure_image_20240101000000.png"
    ));
    assert!(!is_long_exposure_image_name("ffout_0001.png"));
    assert!(!is_long_exposure_image_name("long_exposure_image_1.webp"));
}

#[test]
fn find_long_exposure_image_returns_first_match() {
    let listing = vec![
        "metadata.json".to_string(),
        "long_exposure_image_20240101000000.png".to_string(),
        "long_exposure_image_20250101000000.png".to_string(),
    ];
    assert_eq!(find_long_exposure_image(&listing), Some(1));
    let none = vec!["metadata.json".to_string(), "ffout_0001.png".to_string()];
    assert_eq!(find_long_exposure_image(&none), None);
}

#[test]
fn find_upload_for_project_matches_prefix() {
    let listing = vec![
        "other-id.mp4".to_string(),
        "abc123.mp4".to_string(),
        "abc123.mov".to_string(),
    ];
    assert_eq!(find_upload_for_project(&listing, "abc123"), Some(1));
    assert_eq!(find_upload_for_project(&listing, "zzz"), None);
}

#[test]
fn path_join_inserts_one_separator() {
    assert_eq!(path_join("media", "outputs"), "media/outputs");
    assert_eq!(path_join("media/", "outputs"), "media/outputs");
    assert_eq!(path_join("", "outputs"), "outputs");
}

#[test]
fn ensure_trailing_slash_normalizes_roots() {
    assert_eq!(ensure_trailing_slash("./media/uploads".to_string()), "./media/uploads/");
    assert_eq!(ensure_trailing_slash("./media/uploads/".to_string()), "./media/uploads/");
    assert_eq!(ensure_trailing_slash(String::new()), "/");
}

#[test]
fn timestamped_path_has_the_documented_shape() {
    assert_eq!(
        timestamped_path("media/out", "long_exposure_image", "20240101010101", "png"),
        "media/out/long_exposure_image_20240101010101.png"
    );
}

#[test]
fn generate_timestamped_path_embeds_a_timestamp() {
    let p = generate_timestamped_path("out", "long_exposure_image", "png");
    assert!(str_starts_with(&p, "out/long_exposure_image_"));
    assert!(str_ends_with(&p, ".png"));
    // prefix + at least 14 timestamp characters + extension
    assert!(p.len() >= "out/long_exposure_image_".len() + 14 + ".png".len());
}

#[test]
fn serving_url_strips_the_media_root() {
    assert_eq!(
        convert_image_path_to_serving_url("/srv/media/outputs/p1/img.png", "http://localhost:8081"),
        "http://localhost:8081/outputs/p1/img.png"
    );
}

#[test]
fn serving_url_normalizes_backslashes() {
    assert_eq!(
        convert_image_path_to_serving_url("C:\\media\\outputs\\img.png", "http://host"),
        "http://host/outputs/img.png"
    );
}

#[test]
fn serving_url_without_media_root_keeps_the_path() {
    assert_eq!(
        convert_image_path_to_serving_url("/tmp/elsewhere/img.png", "http://host"),
        "http://host/tmp/elsewhere/img.png"
    );
}
