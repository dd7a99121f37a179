//! Watermarks: where one goes on a frame, and the pixels of a text
//! watermark. Blending by opacity happens outside the library.
use vstd::prelude::*;
use crate::text::chars_of;
use vstd::string::StringSliceAdditionalSpecFns;
use crate::features::template_match::{decode_image_rgba, image_rgba8};

verus! {

/// Where a watermark is placed on the frame.
#[derive(Clone, Copy, Debug, PartialEq, Eq, Structural)]
pub enum WatermarkPosition {
    TopLeft,
    TopRight,
    BottomLeft,
    BottomRight,
    Center,
    Custom(u32, u32),
}

/// `a - b`, or zero when `b` is larger.
pub open spec fn sat_sub(a: int, b: int) -> int {
    if a >= b {
        a - b
    } else {
        0
    }
}

/// Top-left corner of a `ww` x `wh` watermark on a `fw` x `fh` frame: 8
/// pixels from the chosen corners, centred, or where asked.
pub open spec fn origin_of(pos: WatermarkPosition, fw: u32, fh: u32, ww: u32, wh: u32) -> (int, int) {
    match pos {
        WatermarkPosition::TopLeft => (8, 8),
        WatermarkPosition::TopRight => (sat_sub(fw as int, ww + 8), 8),
        WatermarkPosition::BottomLeft => (8, sat_sub(fh as int, wh + 8)),
        WatermarkPosition::BottomRight => (sat_sub(fw as int, ww + 8), sat_sub(fh as int, wh + 8)),
        WatermarkPosition::Center => (sat_sub(fw as int, ww as int) / 2, sat_sub(fh as int, wh as int) / 2),
        WatermarkPosition::Custom(x, y) => (x as int, y as int),
    }
}

/// Where the watermark's top-left pixel lands on the frame.
pub fn watermark_origin(pos: WatermarkPosition, frame_w: u32, frame_h: u32, wm_w: u32, wm_h: u32) -> (o: (u32, u32))
    requires
        wm_w + 8 <= u32::MAX,
        wm_h + 8 <= u32::MAX,
    ensures
        (o.0 as int, o.1 as int) == origin_of(pos, frame_w, frame_h, wm_w, wm_h),
{
    match pos {
        WatermarkPosition::TopLeft => (8, 8),
        WatermarkPosition::TopRight => (frame_w.saturating_sub(wm_w + 8), 8),
        WatermarkPosition::BottomLeft => (8, frame_h.saturating_sub(wm_h + 8)),
        WatermarkPosition::BottomRight => (frame_w.saturating_sub(wm_w + 8), frame_h.saturating_sub(wm_h + 8)),
        WatermarkPosition::Center => (frame_w.saturating_sub(wm_w) / 2, frame_h.saturating_sub(wm_h) / 2),
        WatermarkPosition::Custom(x, y) => (x, y),
    }
}

/// Pixel `(x, y)` of a text watermark for `n` characters is part of a
/// character: each is a 5 x 7 block, 6 pixels apart, 4 pixels in from the
/// top-left corner.
pub open spec fn in_glyph(x: int, y: int, n: int) -> bool {
    4 <= y < 11 && 4 <= x && (x - 4) / 6 < n && (x - 4) % 6 < 5
}

/// Pixels of a text watermark `w` pixels wide for `n` characters: white
/// (alpha 200) blocks over a half-transparent black background.
pub open spec fn text_watermark_pixels(w: int, h: int, n: int) -> Seq<u8> {
    Seq::new(
        (w * h * 4) as nat,
        |k: int|
            if in_glyph((k / 4) % w, (k / 4) / w, n) {
                if k % 4 == 3 {
                    200u8
                } else {
                    255u8
                }
            } else {
                if k % 4 == 3 {
                    128u8
                } else {
                    0u8
                }
            },
    )
}

/// A text watermark's pixels with its width and height: 6 pixels per byte
/// of `text` plus an 8-pixel margin wide, 18 pixels tall.
pub fn text_watermark(text: &str) -> (r: (Vec<u8>, u32, u32))
    requires
        (text.spec_bytes().len() * 6 + 8) * 18 * 4 <= u32::MAX,
    ensures
        r.1 == text.spec_bytes().len() * 6 + 8,
        r.2 == 18,
        r.0@ == text_watermark_pixels(r.1 as int, 18, text@.len() as int),
{
    let n = chars_of(text).len();
    let w: u32 = text.len() as u32 * 6 + 8;
    let h: u32 = 18;
    let ghost wi = w as int;
    let mut rgba: Vec<u8> = Vec::new();
    let mut y: u32 = 0;
    while y < h
        invariant
            w == wi,
            wi == text.spec_bytes().len() * 6 + 8,
            wi * 18 * 4 <= u32::MAX,
            n == text@.len(),
            h == 18,
            y <= h,
            rgba@ == text_watermark_pixels(wi, h as int, n as int).subrange(0, y * wi * 4),
        decreases h - y,
    {
        let mut x: u32 = 0;
        while x < w
            invariant
                w == wi,
                wi == text.spec_bytes().len() * 6 + 8,
                wi * 18 * 4 <= u32::MAX,
                n == text@.len(),
                h == 18,
                y < h,
                x <= w,
                rgba@ == text_watermark_pixels(wi, h as int, n as int).subrange(0, (y * wi + x) * 4),
            decreases w - x,
        {
            let lit = 4 <= y && y < 11 && 4 <= x && (((x - 4) / 6) as usize) < n && (x - 4) % 6 < 5;
            let px: [u8; 4] = if lit { [255, 255, 255, 200] } else { [0, 0, 0, 128] };
            let ghost full = text_watermark_pixels(wi, h as int, n as int);
            proof {
                assert((y * wi + x + 1) * 4 <= wi * 18 * 4) by (nonlinear_arith)
                    requires
                        y < 18,
                        x < wi,
                ;
                assert forall|c: int| 0 <= c < 4 implies #[trigger] full[(y * wi + x) * 4 + c] == px@[c] by {
                    crate::features::screen_rotation::lemma_byte_at(y as int, x as int, c, wi);
                }
            }
            let ghost before = rgba@;
            rgba.push(px[0]);
            rgba.push(px[1]);
            rgba.push(px[2]);
            rgba.push(px[3]);
            proof {
                let base = (y * wi + x) * 4;
                assert(full.len() == wi * 18 * 4);
                assert(rgba@ =~= before + seq![px@[0], px@[1], px@[2], px@[3]]);
                assert(full[base + 0] == px@[0]);
                assert(full[base + 1] == px@[1]);
                assert(full[base + 2] == px@[2]);
                assert(full[base + 3] == px@[3]);
                assert(full.subrange(0, base + 4) =~= full.subrange(0, base) + seq![px@[0], px@[1], px@[2], px@[3]]);
            }
            x = x + 1;
        }
        proof {
            assert(y * wi + wi == (y + 1) * wi) by (nonlinear_arith);
        }
        y = y + 1;
    }
    proof {
        assert(rgba@ =~= text_watermark_pixels(wi, h as int, n as int)) by {
            assert(18 * wi * 4 == wi * 18 * 4) by (nonlinear_arith);
        }
    }
    (rgba, w, h)
}

/// The pixels of an image watermark from the bytes of an image file whose
/// extension is `ext` (PNG or JPEG): RGBA pixels, width and height, or the
/// failure prefixed with "Failed to load watermark: ".
pub fn watermark_image(bytes: &[u8], ext: &str) -> (r: Result<(Vec<u8>, u32, u32), String>)
    ensures
        match r {
            Ok((px, w, h)) => image_rgba8(bytes@, ext@) == Some((px@, w, h)),
            Err(m) => image_rgba8(bytes@, ext@) is None && "Failed to load watermark: "@.is_prefix_of(m@),
        },
{
    match decode_image_rgba(bytes, ext) {
        Ok(t) => Ok(t),
        Err(e) => {
            let mut out: Vec<char> = Vec::new();
            crate::text::append_chars(&mut out, "Failed to load watermark: ");
            let ghost head = out@;
            crate::text::append_chars(&mut out, e.as_str());
            proof {
                assert(out@.subrange(0, head.len() as int) =~= head);
            }
            Err(crate::text::string_from_chars(&out))
        },
    }
}

} // verus!
