//! Reference images for template matching and watermarks: image files
//! decoded to RGBA pixels. Finding a template in a frame scores it with
//! floating point and is done by the application.
use vstd::prelude::*;
use image::ImageFormat;

verus! {

/// What image decodes from `bytes` in the format that file extension `ext`
/// names (`ImageFormat::from_extension`, then
/// `load_from_memory_with_format` under image's default limits), as 8-bit
/// RGBA pixels (`to_rgba8`) with the width and height; `None` when the
/// extension names no format this build decodes or the bytes do not decode.
pub uninterp spec fn image_rgba8(bytes: Seq<u8>, ext: Seq<char>) -> Option<(Seq<u8>, u32, u32)>;

/// `image::ImageFormat::from_extension`, `image::load_from_memory_with_format`
/// and `DynamicImage::to_rgba8`: the image file `bytes`, read in the format
/// its extension `ext` names, as RGBA pixels. This is what `image::open`
/// does once the file is read. The contract names the outcome, a function
/// of the bytes and the extension alone; the error text is not described.
#[verifier::external_body]
pub(crate) fn decode_image_rgba(bytes: &[u8], ext: &str) -> (r: Result<(Vec<u8>, u32, u32), String>)
    ensures
        match r {
            Ok((px, w, h)) => image_rgba8(bytes@, ext@) == Some((px@, w, h)),
            Err(_) => image_rgba8(bytes@, ext@) is None,
        },
{
    let format = ImageFormat::from_extension(ext).ok_or_else(|| format!("unsupported image extension {ext:?}"))?;
    let rgba = image::load_from_memory_with_format(bytes, format).map_err(|e| e.to_string())?.to_rgba8();
    let (w, h) = rgba.dimensions();
    Ok((rgba.into_raw(), w, h))
}

/// A template image from the bytes of an image file whose extension is
/// `ext` (PNG or JPEG): its RGBA pixels, width and height, or the failure
/// prefixed with "Failed to load template: ".
pub fn load_template(bytes: &[u8], ext: &str) -> (r: Result<(Vec<u8>, u32, u32), String>)
    ensures
        match r {
            Ok((px, w, h)) => image_rgba8(bytes@, ext@) == Some((px@, w, h)),
            Err(m) => image_rgba8(bytes@, ext@) is None && "Failed to load template: "@.is_prefix_of(m@),
        },
{
    match decode_image_rgba(bytes, ext) {
        Ok(t) => Ok(t),
        Err(e) => {
            let mut out: Vec<char> = Vec::new();
            crate::text::append_chars(&mut out, "Failed to load template: ");
            let ghost head = out@;
            crate::text::append_chars(&mut out, e.as_str());
            proof {
                assert(out@.subrange(0, head.len() as int) =~= head);
            }
            Err(crate::text::string_from_chars(&out))
        },
    }
}

} // verus!
