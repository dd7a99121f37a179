//! Screenshots: a frame encoded as PNG.
use vstd::prelude::*;
use image::codecs::png::PngEncoder;
use image::{ExtendedColorType, ImageEncoder};
use vstd::slice::slice_subrange;
use crate::features::frame::Frame;
use crate::text::{append_chars, string_from_chars};

verus! {

/// What image's PNG encoder writes for `rgba` (RGBA, 8 bits per channel) of
/// a `w` x `h` image; `None` when it reports an error.
pub uninterp spec fn png_encoding(rgba: Seq<u8>, w: u32, h: u32) -> Option<Seq<u8>>;

/// `image::codecs::png::PngEncoder::write_image` with RGBA8 pixels. The
/// contract names the outcome, a function of the pixels and size alone;
/// the error text is not described. The pixel count must match the size,
/// as the encoder requires.
#[verifier::external_body]
fn png_encode(rgba: &[u8], w: u32, h: u32) -> (r: Result<Vec<u8>, String>)
    requires
        rgba@.len() == w * h * 4,
    ensures
        match r {
            Ok(b) => png_encoding(rgba@, w, h) == Some(b@),
            Err(_) => png_encoding(rgba@, w, h) is None,
        },
{
    let mut out = Vec::new();
    PngEncoder::new(&mut out).write_image(rgba, w, h, ExtendedColorType::Rgba8).map_err(|e| e.to_string())?;
    Ok(out)
}

/// The PNG file of a frame: its first `width * height` pixels, refused when
/// the buffer holds fewer.
pub fn encode_png(frame: &Frame) -> (r: Result<Vec<u8>, String>)
    ensures
        frame.width * frame.height * 4 > frame.rgba@.len() ==> (r matches Err(m) && m@ == "Failed to create image buffer"@),
        frame.width * frame.height * 4 <= frame.rgba@.len() ==> match (r, png_encoding(
            frame.rgba@.subrange(0, frame.width * frame.height * 4),
            frame.width,
            frame.height,
        )) {
            (Ok(b), Some(p)) => b@ == p,
            (Err(_), None) => true,
            _ => false,
        },
{
    assert(frame.width as int * frame.height as int <= 0xFFFF_FFFF * 0xFFFF_FFFFint) by (nonlinear_arith)
        requires
            frame.width <= 0xFFFF_FFFFu32,
            frame.height <= 0xFFFF_FFFFu32,
    ;
    let wh: u128 = frame.width as u128 * frame.height as u128;
    let need: u128 = wh * 4;
    if need > frame.rgba.len() as u128 {
        return Err("Failed to create image buffer".to_string());
    }
    let pixels = slice_subrange(frame.rgba.as_slice(), 0, need as usize);
    png_encode(pixels, frame.width, frame.height)
}

/// Where a screenshot taken at `stamp` (local `YYYYmmdd_HHMMSS_mmm`) is saved.
pub fn screenshot_path(stamp: &str) -> (p: String)
    ensures
        p@ == "screenshots/ss_"@ + stamp@ + ".png"@,
{
    let mut out: Vec<char> = Vec::new();
    append_chars(&mut out, "screenshots/ss_");
    append_chars(&mut out, stamp);
    append_chars(&mut out, ".png");
    string_from_chars(&out)
}

} // verus!
