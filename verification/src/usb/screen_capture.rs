//! Screen capture through the screenshotr service: message sizes and the
//! PNG screenshots it returns, turned into RGBA frames.
use vstd::prelude::*;
use std::io::Cursor;
use image::codecs::png::PngDecoder;
use image::ImageDecoder;
use image::Limits;
use crate::usb::lockdown::{be_bytes, be_value, lockdown_frame};
use crate::usb::property_list::{
    binary_plist_bytes, dict_get, encode_binary, parse_plist, plist_document, position, PlistOut, PlistValue,
};

verus! {

/// The lockdown service that takes screenshots.
pub const SCREENSHOTR_SERVICE: &'static str = "com.apple.mobile.screenshotr";

/// Largest screenshot message accepted, in bytes.
pub const MAX_SCREENSHOT_MESSAGE: u32 = 50_000_000;

/// Length of a screenshotr message from its big-endian prefix: empty
/// messages are allowed, ones over 50,000,000 bytes refused (with the
/// length).
pub fn message_length(prefix: &[u8]) -> (r: Result<u32, u32>)
    requires
        prefix@.len() >= 4,
    ensures
        r == (if be_value(prefix@) <= 50_000_000 {
            Ok::<u32, u32>(be_value(prefix@) as u32)
        } else {
            Err::<u32, u32>(be_value(prefix@) as u32)
        }),
{
    let n = 16777216 * prefix[0] as u32 + 65536 * prefix[1] as u32 + 256 * prefix[2] as u32 + prefix[3] as u32;
    if n > MAX_SCREENSHOT_MESSAGE {
        Err(n)
    } else {
        Ok(n)
    }
}

/// What image's PNG decoder yields for `png` under image's default limits
/// (`Limits::default()`, 512 MiB of allocation): the pixel bytes in the
/// image's own colour type, its width and its height; `None` when it cannot
/// decode, or when the pixels would take more than that limit.
pub uninterp spec fn png_pixels(png: Seq<u8>) -> Option<(Seq<u8>, u32, u32)>;

/// `image::codecs::png::PngDecoder`: decode `png` (`with_limits` under
/// `Limits::default()`, `dimensions`, `total_bytes` checked against the same
/// limits with `Limits::reserve`, then `read_image` into a buffer of exactly
/// that size). A header that declares a huge image is refused by image with
/// an error before anything is allocated. The contract only names the
/// outcome, a function of the bytes alone; the error text is not described.
#[verifier::external_body]
fn decode_png(png: &[u8]) -> (r: Result<(Vec<u8>, u32, u32), String>)
    ensures
        match r {
            Ok((px, w, h)) => png_pixels(png@) == Some((px@, w, h)),
            Err(_) => png_pixels(png@) is None,
        },
{
    let decoder = PngDecoder::with_limits(Cursor::new(png), Limits::default()).map_err(|e| e.to_string())?;
    let (width, height) = decoder.dimensions();
    Limits::default().reserve(decoder.total_bytes()).map_err(|e| e.to_string())?;
    let mut pixels = vec![0u8; decoder.total_bytes() as usize];
    decoder.read_image(&mut pixels).map_err(|e| e.to_string())?;
    Ok((pixels, width, height))
}

/// `rgb` (three bytes per pixel) with an opaque alpha byte after each
/// pixel; a trailing partial pixel keeps its bytes and also gets one.
pub open spec fn rgb_to_rgba_spec(rgb: Seq<u8>) -> Seq<u8> {
    let full = rgb.len() / 3;
    let rest = rgb.len() % 3;
    Seq::new(
        (full * 4 + if rest > 0 { rest + 1 } else { 0 }) as nat,
        |k: int|
            if k / 4 < full {
                if k % 4 < 3 {
                    rgb[(k / 4) * 3 + k % 4]
                } else {
                    255u8
                }
            } else {
                let j = k - full * 4;
                if j < rest {
                    rgb[full * 3 + j]
                } else {
                    255u8
                }
            },
    )
}

/// Add an opaque alpha byte after every three colour bytes.
pub fn rgb_to_rgba(rgb: &[u8]) -> (out: Vec<u8>)
    ensures
        out@ == rgb_to_rgba_spec(rgb@),
{
    let n = rgb.len();
    let full = n / 3;
    let mut out: Vec<u8> = Vec::new();
    let mut i: usize = 0;
    while i < full
        invariant
            n == rgb@.len(),
            full == n / 3,
            i <= full,
            out@.len() == i * 4,
            forall|k: int| 0 <= k < i * 4 ==> #[trigger] out@[k] == rgb_to_rgba_spec(rgb@)[k],
        decreases full - i,
    {
        out.push(rgb[3 * i]);
        out.push(rgb[3 * i + 1]);
        out.push(rgb[3 * i + 2]);
        out.push(255);
        proof {
            assert forall|k: int| 0 <= k < (i + 1) * 4 implies #[trigger] out@[k] == rgb_to_rgba_spec(rgb@)[k] by {
                if k >= i * 4 {
                    assert(k / 4 == i);
                }
            }
        }
        i = i + 1;
    }
    let rest = n % 3;
    assert(n == full * 3 + rest);
    if rest > 0 {
        let mut j: usize = 0;
        while j < rest
            invariant
                n == rgb@.len(),
                full == n / 3,
                rest == n % 3,
                n == full * 3 + rest,
                j <= rest,
                out@.len() == full * 4 + j,
                forall|k: int| 0 <= k < full * 4 + j ==> #[trigger] out@[k] == rgb_to_rgba_spec(rgb@)[k],
            decreases rest - j,
        {
            out.push(rgb[full * 3 + j]);
            proof {
                assert forall|k: int| 0 <= k < full * 4 + j + 1 implies #[trigger] out@[k] == rgb_to_rgba_spec(rgb@)[k] by {
                    if k == full * 4 + j {
                        assert(k / 4 >= full);
                    }
                }
            }
            j = j + 1;
        }
        out.push(255);
        proof {
            assert forall|k: int| 0 <= k < full * 4 + rest + 1 implies #[trigger] out@[k] == rgb_to_rgba_spec(rgb@)[k] by {
                if k == full * 4 + rest {
                    assert(k / 4 >= full);
                }
            }
        }
    }
    proof {
        assert(out@ =~= rgb_to_rgba_spec(rgb@));
    }
    out
}

/// A decoded screenshot as RGBA: an RGB image (three bytes per pixel) gets
/// an opaque alpha channel; any other image keeps its bytes.
pub open spec fn screenshot_rgba(px: Seq<u8>, w: u32, h: u32) -> Seq<u8> {
    if px.len() == w * h * 3 {
        rgb_to_rgba_spec(px)
    } else {
        px
    }
}

/// Decode a PNG screenshot to RGBA pixels, with its width and height.
pub fn decode_png_to_rgba(png: &[u8]) -> (r: Result<(Vec<u8>, u32, u32), String>)
    ensures
        match (r, png_pixels(png@)) {
            (Ok((out, w, h)), Some((px, pw, ph))) => w == pw && h == ph && out@ == screenshot_rgba(px, pw, ph),
            (Err(_), None) => true,
            _ => false,
        },
{
    let (pixels, width, height) = decode_png(png)?;
    assert(width as int * height as int <= 0xFFFF_FFFF * 0xFFFF_FFFFint) by (nonlinear_arith)
        requires
            width <= 0xFFFF_FFFFu32,
            height <= 0xFFFF_FFFFu32,
    ;
    let wh: u128 = width as u128 * height as u128;
    let rgb_len: u128 = wh * 3;
    if pixels.len() as u128 == rgb_len {
        let out = rgb_to_rgba(pixels.as_slice());
        return Ok((out, width, height));
    }
    Ok((pixels, width, height))
}

/// Whether `v` is the version-exchange message
/// `["DLMessageVersionExchange", "DLVersionsOk", 300]`.
pub open spec fn is_version_exchange(v: PlistOut) -> bool {
    match v {
        PlistOut::Array(a) => a@.len() == 3 && (a@[0] matches PlistOut::String(s) && s@ == "DLMessageVersionExchange"@)
            && (a@[1] matches PlistOut::String(s) && s@ == "DLVersionsOk"@) && a@[2] == PlistOut::Integer(300),
        _ => false,
    }
}

/// Whether `v` is the screenshot request
/// `["DLMessageProcessMessage", {"MessageType": "ScreenShotRequest"}]`.
pub open spec fn is_screenshot_request(v: PlistOut) -> bool {
    match v {
        PlistOut::Array(a) => a@.len() == 2 && (a@[0] matches PlistOut::String(s) && s@ == "DLMessageProcessMessage"@)
            && match a@[1] {
            PlistOut::Dictionary(d) => d@.len() == 1 && d@[0].0@ == "MessageType"@ && (d@[0].1 matches PlistOut::String(
                s,
            ) && s@ == "ScreenShotRequest"@),
            _ => false,
        },
        _ => false,
    }
}

/// The version-exchange message that opens a screenshotr session.
pub fn version_exchange() -> (v: PlistOut)
    ensures
        is_version_exchange(v),
{
    let mut a: Vec<PlistOut> = Vec::new();
    a.push(PlistOut::String("DLMessageVersionExchange".to_string()));
    a.push(PlistOut::String("DLVersionsOk".to_string()));
    a.push(PlistOut::Integer(300));
    PlistOut::Array(a)
}

/// The message that asks for one screenshot.
pub fn screenshot_request() -> (v: PlistOut)
    ensures
        is_screenshot_request(v),
{
    let mut d: Vec<(String, PlistOut)> = Vec::new();
    d.push(("MessageType".to_string(), PlistOut::String("ScreenShotRequest".to_string())));
    let mut a: Vec<PlistOut> = Vec::new();
    a.push(PlistOut::String("DLMessageProcessMessage".to_string()));
    a.push(PlistOut::Dictionary(d));
    PlistOut::Array(a)
}

/// A device-link message on the wire: the binary property list,
/// length-prefixed (four big-endian bytes).
pub fn dl_message(v: &PlistOut) -> (r: Result<Vec<u8>, String>)
    ensures
        match (r, binary_plist_bytes(*v)) {
            (Ok(m), Some(b)) => m@ == be_bytes(b.len() as u32) + b,
            (Err(_), None) => true,
            _ => false,
        },
{
    let body = encode_binary(v)?;
    Ok(lockdown_frame(body.as_slice()))
}

/// The screenshot data of the first item of a reply that is a dictionary
/// with `ScreenShotData` bytes.
pub open spec fn first_screenshot(items: Seq<PlistValue>) -> Option<Seq<u8>>
    decreases items.len(),
{
    if items.len() == 0 {
        None
    } else {
        match items[0] {
            PlistValue::Dictionary(d) => match dict_get(d@, "ScreenShotData"@) {
                Some(PlistValue::Data(png)) => Some(png@),
                _ => first_screenshot(items.drop_first()),
            },
            _ => first_screenshot(items.drop_first()),
        }
    }
}

/// Where the screenshot bytes stand in a reply's items: the item, and the
/// entry within it.
fn screenshot_position(items: &Vec<PlistValue>) -> (r: Option<(usize, usize)>)
    ensures
        match r {
            Some((i, j)) => i < items@.len() && (items@[i as int] matches PlistValue::Dictionary(d) && j < d@.len()
                && (d@[j as int].1 matches PlistValue::Data(png) && first_screenshot(items@) == Some(png@))),
            None => first_screenshot(items@) is None,
        },
{
    let mut i: usize = 0;
    proof {
        assert(items@.subrange(0, items@.len() as int) =~= items@);
    }
    while i < items.len()
        invariant
            i <= items@.len(),
            first_screenshot(items@) == first_screenshot(items@.subrange(i as int, items@.len() as int)),
        decreases items@.len() - i,
    {
        proof {
            assert(items@.subrange(i as int, items@.len() as int).drop_first() =~= items@.subrange(
                i as int + 1,
                items@.len() as int,
            ));
        }
        if let PlistValue::Dictionary(d) = &items[i] {
            if let Some(j) = position(d.as_slice(), "ScreenShotData") {
                if let PlistValue::Data(_) = &d[j].1 {
                    return Some((i, j));
                }
            }
        }
        i = i + 1;
    }
    None
}

/// The PNG bytes of a screenshot reply: the first `ScreenShotData` of its
/// items; refused when the body is no property list (with the parser's
/// message) or carries none.
pub fn screenshot_from_reply(body: &[u8]) -> (r: Result<Vec<u8>, String>)
    ensures
        match plist_document(body@) {
            None => r is Err,
            Some(PlistValue::Array(a)) => match first_screenshot(a@) {
                Some(png) => r matches Ok(b) && b@ == png,
                None => r matches Err(m) && m@ == "No ScreenShotData in response"@,
            },
            Some(_) => r matches Err(m) && m@ == "No ScreenShotData in response"@,
        },
{
    let v = parse_plist(body)?;
    if let PlistValue::Array(items) = v {
        if let Some((i, j)) = screenshot_position(&items) {
            let mut items = items;
            let item = items.remove(i);
            if let PlistValue::Dictionary(d) = item {
                let mut d = d;
                let (_, data) = d.remove(j);
                if let PlistValue::Data(png) = data {
                    return Ok(png);
                }
            }
        }
    }
    Err("No ScreenShotData in response".to_string())
}

} // verus!
