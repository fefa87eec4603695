//! Decoding frame files into pixel grids and encoding the composite as PNG.
//!
//! The image crate does the byte-level work behind two trusted wrappers; the
//! conversion between raw RGBA8 byte buffers and pixel grids is verified.

use crate::error::EngineError;
use crate::frame::Image;
use crate::pixel::Pixel;
use vstd::arithmetic::div_mod::{
    lemma_div_multiples_vanish, lemma_fundamental_div_mod, lemma_mod_multiples_basic,
};
use vstd::prelude::*;

verus! {

/// The flat RGBA8 byte form of a pixel grid: four bytes per pixel, channels
/// in red, green, blue, alpha order.
pub open spec fn spec_rgba_bytes(pixels: Seq<Pixel>) -> Seq<u8> {
    Seq::new(
        4 * pixels.len(),
        |j: int|
            {
                let p = pixels[j / 4];
                if j % 4 == 0 {
                    p.r
                } else if j % 4 == 1 {
                    p.g
                } else if j % 4 == 2 {
                    p.b
                } else {
                    p.a
                }
            },
    )
}

/// What the image crate decodes a byte stream to: the RGBA8 form of the
/// image, with its dimensions, or nothing when the bytes are not a readable
/// image. The result depends on the bytes alone.
pub uninterp spec fn decoded_rgba(bytes: Seq<u8>) -> Option<(u32, u32, Seq<u8>)>;

/// What the image crate encodes a width x height RGBA8 buffer to in PNG
/// form, or nothing when encoding fails (a zero dimension). The result
/// depends on the dimensions and bytes alone.
pub uninterp spec fn png_encoded(width: int, height: int, bytes: Seq<u8>) -> Option<Seq<u8>>;

/// Relies on image::load_from_memory and DynamicImage::to_rgba8: the decoded
/// RGBA8 buffer holds exactly width * height * 4 bytes.
#[verifier::external_body]
fn decode_rgba(bytes: &Vec<u8>) -> (r: Option<(u32, u32, Vec<u8>)>)
    ensures
        match r {
            Some(d) => decoded_rgba(bytes@) == Some((d.0, d.1, d.2@)) && d.2@.len() == 4 * (
            d.0 as int) * (d.1 as int),
            None => decoded_rgba(bytes@) is None,
        },
{
    match image::load_from_memory(bytes.as_slice()) {
        Ok(img) => {
            let buf = img.to_rgba8();
            let (w, h) = buf.dimensions();
            Some((w, h, buf.into_raw()))
        },
        Err(_) => None,
    }
}

/// Relies on image::RgbaImage::from_raw and ImageBuffer::write_to with the
/// PNG format: encodes the buffer as a PNG byte stream in memory.
#[verifier::external_body]
fn encode_png(width: u32, height: u32, raw: &Vec<u8>) -> (r: Option<Vec<u8>>)
    requires
        raw@.len() == 4 * (width as int) * (height as int),
    ensures
        match r {
            Some(png) => png_encoded(width as int, height as int, raw@) == Some(png@),
            None => png_encoded(width as int, height as int, raw@) is None,
        },
{
    let buf = match image::RgbaImage::from_raw(width, height, raw.clone()) {
        Some(buf) => buf,
        None => {
            return None;
        },
    };
    let mut out = std::io::Cursor::new(Vec::new());
    match buf.write_to(&mut out, image::ImageFormat::Png) {
        Ok(()) => Some(out.into_inner()),
        Err(_) => None,
    }
}

/// Rebuilds the pixel grid from a raw RGBA8 byte buffer.
pub fn pixels_from_rgba_bytes(bytes: &Vec<u8>) -> (pixels: Vec<Pixel>)
    requires
        bytes@.len() % 4 == 0,
    ensures
        pixels@.len() == bytes@.len() / 4,
        spec_rgba_bytes(pixels@) == bytes@,
{
    let n = bytes.len() / 4;
    proof {
        lemma_fundamental_div_mod(bytes@.len() as int, 4);
    }
    let mut pixels: Vec<Pixel> = Vec::new();
    let mut i: usize = 0;
    while i < n
        invariant
            0 <= i <= n,
            bytes@.len() == 4 * n,
            4 * n <= usize::MAX,
            pixels@.len() == i,
            forall|k: int|
                0 <= k < i ==> (#[trigger] pixels@[k]) == (Pixel {
                    r: bytes@[4 * k],
                    g: bytes@[4 * k + 1],
                    b: bytes@[4 * k + 2],
                    a: bytes@[4 * k + 3],
                }),
        decreases n - i,
    {
        let base = 4 * i;
        let p = Pixel {
            r: bytes[base],
            g: bytes[base + 1],
            b: bytes[base + 2],
            a: bytes[base + 3],
        };
        pixels.push(p);
        i = i + 1;
    }
    proof {
        lemma_pixels_match_bytes(pixels@, bytes@);
    }
    pixels
}

/// Flattens a pixel grid into its raw RGBA8 byte buffer.
pub fn rgba_bytes_from_pixels(pixels: &Vec<Pixel>) -> (bytes: Vec<u8>)
    requires
        4 * pixels@.len() <= usize::MAX,
    ensures
        bytes@ == spec_rgba_bytes(pixels@),
{
    let mut bytes: Vec<u8> = Vec::new();
    let mut i: usize = 0;
    while i < pixels.len()
        invariant
            0 <= i <= pixels@.len(),
            4 * pixels@.len() <= usize::MAX,
            bytes@.len() == 4 * i,
            forall|k: int|
                0 <= k < i ==> bytes@[4 * k] == (#[trigger] pixels@[k]).r && bytes@[4 * k + 1]
                    == pixels@[k].g && bytes@[4 * k + 2] == pixels@[k].b && bytes@[4 * k + 3]
                    == pixels@[k].a,
        decreases pixels@.len() - i,
    {
        let p = pixels[i];
        bytes.push(p.r);
        bytes.push(p.g);
        bytes.push(p.b);
        bytes.push(p.a);
        i = i + 1;
    }
    proof {
        lemma_pixels_match_bytes(pixels@, bytes@);
    }
    bytes
}

/// A byte buffer that agrees with a pixel grid pixel by pixel is its RGBA8
/// form.
proof fn lemma_pixels_match_bytes(pixels: Seq<Pixel>, bytes: Seq<u8>)
    requires
        bytes.len() == 4 * pixels.len(),
        forall|k: int|
            0 <= k < pixels.len() ==> bytes[4 * k] == (#[trigger] pixels[k]).r && bytes[4 * k + 1]
                == pixels[k].g && bytes[4 * k + 2] == pixels[k].b && bytes[4 * k + 3]
                == pixels[k].a,
    ensures
        spec_rgba_bytes(pixels) == bytes,
{
    assert forall|j: int| 0 <= j < bytes.len() implies spec_rgba_bytes(pixels)[j] == bytes[j] by {
        lemma_fundamental_div_mod(j, 4);
        let k = j / 4;
        assert(0 <= k < pixels.len()) by (nonlinear_arith)
            requires
                0 <= j < 4 * pixels.len(),
                j == 4 * k + j % 4,
                0 <= j % 4 < 4,
        ;
        assert(bytes[4 * k] == pixels[k].r && bytes[4 * k + 1] == pixels[k].g && bytes[4 * k + 2]
            == pixels[k].b && bytes[4 * k + 3] == pixels[k].a);
    }
    assert(spec_rgba_bytes(pixels) =~= bytes);
}

/// Decodes one frame file's bytes into a pixel grid, or reports that the
/// bytes are not a readable image.
pub fn decode_frame(bytes: &Vec<u8>) -> (r: Result<Image, EngineError>)
    ensures
        match r {
            Result::Ok(img) => {
                &&& img.well_formed()
                &&& img.width <= u32::MAX
                &&& img.height <= u32::MAX
                &&& 4 * (img.width as int) * (img.height as int) <= usize::MAX
                &&& decoded_rgba(bytes@) == Some(
                    (img.width as u32, img.height as u32, spec_rgba_bytes(img.pixels@)),
                )
            },
            Result::Err(e) => e == EngineError::DecodeError && decoded_rgba(bytes@) is None,
        },
{
    match decode_rgba(bytes) {
        None => Err(EngineError::DecodeError),
        Some((w, h, raw)) => {
            proof {
                assert(raw@.len() == ((w as int) * (h as int)) * 4) by (nonlinear_arith)
                    requires
                        raw@.len() == 4 * (w as int) * (h as int),
                ;
                lemma_mod_multiples_basic((w as int) * (h as int), 4);
                lemma_div_multiples_vanish((w as int) * (h as int), 4);
                assert(raw@.len() == 4 * ((w as int) * (h as int))) by (nonlinear_arith)
                    requires
                        raw@.len() == 4 * (w as int) * (h as int),
                ;
            }
            let raw_len = raw.len();
            let pixels = pixels_from_rgba_bytes(&raw);
            let width = w as usize;
            let height = h as usize;
            proof {
                assert(4 * (width as int) * (height as int) == raw_len) by (nonlinear_arith)
                    requires
                        raw_len == 4 * (w as int) * (h as int),
                        width as int == w as int,
                        height as int == h as int,
                ;
            }
            proof {
                assert(pixels@.len() == (width as int) * (height as int)) by (nonlinear_arith)
                    requires
                        pixels@.len() == (w as int) * (h as int),
                        width as int == w as int,
                        height as int == h as int,
                ;
            }
            Ok(Image { width, height, pixels })
        },
    }
}

/// Encodes the composite image as PNG bytes, in memory; writing them to disk
/// is the caller's concern.
pub fn render_png(img: &Image) -> (r: Result<Vec<u8>, EngineError>)
    requires
        img.well_formed(),
        img.width <= u32::MAX,
        img.height <= u32::MAX,
        4 * (img.width as int) * (img.height as int) <= usize::MAX,
    ensures
        match r {
            Result::Ok(png) => png_encoded(
                img.width as int,
                img.height as int,
                spec_rgba_bytes(img.pixels@),
            ) == Some(png@),
            Result::Err(e) => e == EngineError::IoError && png_encoded(
                img.width as int,
                img.height as int,
                spec_rgba_bytes(img.pixels@),
            ) is None,
        },
{
    proof {
        assert(4 * img.pixels@.len() == 4 * (img.width as int) * (img.height as int))
            by (nonlinear_arith)
            requires
                img.pixels@.len() == (img.width as int) * (img.height as int),
        ;
    }
    let raw = rgba_bytes_from_pixels(&img.pixels);
    match encode_png(img.width as u32, img.height as u32, &raw) {
        Some(png) => Ok(png),
        None => Err(EngineError::IoError),
    }
}

} // verus!
