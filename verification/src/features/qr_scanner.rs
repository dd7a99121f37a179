//! QR codes on the mirrored screen: the frame is turned to grey levels for
//! `rqrr`, which finds and decodes the codes, and the texts of the codes
//! that decoded are kept. The call into `rqrr` itself is made by the
//! application: its grid detection asserts on conditions that no contract
//! here could state of the input.
use vstd::prelude::*;
use crate::features::frame::Frame;

verus! {

/// Grey level of pixel `i` of an RGBA buffer (ITU-R 601 weights, in
/// thousandths); a pixel the buffer does not fully hold reads as black.
pub open spec fn gray_value(rgba: Seq<u8>, i: int) -> u8 {
    if i * 4 + 2 < rgba.len() {
        ((rgba[i * 4] * 299 + rgba[i * 4 + 1] * 587 + rgba[i * 4 + 2] * 114) / 1000) as u8
    } else {
        0
    }
}

/// The grey image of the first `n` pixels of an RGBA buffer.
pub open spec fn gray_image(rgba: Seq<u8>, n: int) -> Seq<u8> {
    Seq::new(n as nat, |i: int| gray_value(rgba, i))
}

/// The decoded texts among per-grid decode outcomes, in grid order.
pub open spec fn decoded_texts(outcomes: Seq<Option<Seq<char>>>) -> Seq<Seq<char>>
    decreases outcomes.len(),
{
    if outcomes.len() == 0 {
        Seq::empty()
    } else {
        let rest = decoded_texts(outcomes.drop_last());
        match outcomes.last() {
            Some(t) => rest.push(t),
            None => rest,
        }
    }
}

/// The grey image of a `width` x `height` RGBA buffer.
pub fn rgba_to_gray(rgba: &[u8], width: u32, height: u32) -> (gray: Vec<u8>)
    requires
        width * height <= u32::MAX,
    ensures
        gray@ == gray_image(rgba@, width * height),
{
    let count = (width * height) as usize;
    let mut gray: Vec<u8> = Vec::new();
    let mut i: usize = 0;
    while i < count
        invariant
            i <= count,
            count == width * height,
            gray@ == gray_image(rgba@, i as int),
        decreases count - i,
    {
        proof {
            assert(gray_image(rgba@, i as int + 1) =~= gray_image(rgba@, i as int).push(gray_value(rgba@, i as int)));
        }
        if i <= (usize::MAX - 2) / 4 && i * 4 + 2 < rgba.len() {
            let idx = i * 4;
            let r = rgba[idx] as u32;
            let g = rgba[idx + 1] as u32;
            let b = rgba[idx + 2] as u32;
            assert(r * 299 + g * 587 + b * 114 <= 255000) by (nonlinear_arith)
                requires
                    r <= 255,
                    g <= 255,
                    b <= 255,
            ;
            let v: u32 = (r * 299 + g * 587 + b * 114) / 1000;
            assert(v <= 255);
            assert(gray_value(rgba@, i as int) == v as u8);
            gray.push(v as u8);
        } else {
            let n: usize = rgba.len();
            assert(i * 4 + 2 >= n) by (nonlinear_arith)
                requires
                    i > (usize::MAX - 2) / 4 || i * 4 + 2 >= n,
            ;
            gray.push(0);
        }
        i = i + 1;
    }
    gray
}

/// The texts of the grids that decoded, in the order `rqrr` found them.
pub fn decoded_codes(outcomes: Vec<Option<String>>) -> (codes: Vec<String>)
    ensures
        codes.deep_view() == decoded_texts(outcomes.deep_view()),
{
    let mut codes: Vec<String> = Vec::new();
    let mut i: usize = 0;
    while i < outcomes.len()
        invariant
            i <= outcomes.len(),
            codes.deep_view() == decoded_texts(outcomes.deep_view().take(i as int)),
        decreases outcomes.len() - i,
    {
        proof {
            assert(outcomes.deep_view().take(i as int + 1).drop_last() =~= outcomes.deep_view().take(i as int));
        }
        match &outcomes[i] {
            Some(t) => {
                let ghost before = codes.deep_view();
                codes.push(t.clone());
                proof {
                    assert(codes.deep_view() =~= before.push(t@));
                }
            },
            None => {},
        }
        i = i + 1;
    }
    proof {
        assert(outcomes.deep_view().take(outcomes.len() as int) =~= outcomes.deep_view());
    }
    codes
}

/// The grey image `rqrr` is given for a frame: one grey level per pixel,
/// row by row; `None` for an empty frame, which holds no code.
pub fn qr_gray_image(frame: &Frame) -> (r: Option<Vec<u8>>)
    requires
        frame.rgba@.len() > 0 && frame.width > 0 && frame.height > 0 ==> frame.width * frame.height <= u32::MAX,
    ensures
        frame.rgba@.len() == 0 || frame.width == 0 || frame.height == 0 ==> r is None,
        frame.rgba@.len() > 0 && frame.width > 0 && frame.height > 0 ==> (r matches Some(g) && g@ == gray_image(
            frame.rgba@,
            frame.width * frame.height,
        )),
{
    if frame.rgba.len() == 0 || frame.width == 0 || frame.height == 0 {
        return None;
    }
    Some(rgba_to_gray(frame.rgba.as_slice(), frame.width, frame.height))
}

} // verus!
