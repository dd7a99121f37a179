//! Side-by-side comparison of two frames.
use vstd::prelude::*;
use crate::features::frame::Frame;
use crate::features::screen_rotation::{byte_col, byte_row, lemma_byte_at, lemma_row_bound};

verus! {

/// Channel `c` of pixel `(x, y)` of the comparison image: frame `a` on the
/// left in a band `w` pixels wide, a 4-pixel red divider, then frame `b`.
/// A position that the source frame does not cover is black (all zero).
pub open spec fn side_byte(a: Seq<u8>, aw: int, b: Seq<u8>, bw: int, bh: int, w: int, x: int, y: int, c: int) -> u8 {
    if x < w {
        let src = (y * aw + x) * 4;
        if x < aw && src + 3 < a.len() {
            a[src + c]
        } else {
            0
        }
    } else if x < w + 4 {
        if c == 0 || c == 3 {
            255
        } else {
            0
        }
    } else {
        let xb = x - w - 4;
        let src = (y * bw + xb) * 4;
        if y < bh && xb < bw && src + 3 < b.len() {
            b[src + c]
        } else {
            0
        }
    }
}

/// Width of the comparison image: twice the wider frame plus the divider.
pub open spec fn compare_width(a: Frame, b: Frame) -> int {
    2 * (if a.width >= b.width { a.width as int } else { b.width as int }) + 4
}

/// Pixels of the comparison image of `a` and `b`, `a.height` rows tall.
pub open spec fn spec_compare(a: Frame, b: Frame) -> Seq<u8> {
    let w = if a.width >= b.width { a.width as int } else { b.width as int };
    let tw = compare_width(a, b);
    Seq::new(
        (tw * a.height * 4) as nat,
        |k: int| side_byte(a.rgba@, a.width as int, b.rgba@, b.width as int, b.height as int, w, byte_col(k, tw), byte_row(k, tw), k % 4),
    )
}

/// The four bytes of pixel `(x, y)` of the comparison image.
fn side_pixel(a: &Frame, b: &Frame, w: u32, x: u32, y: u32) -> (px: [u8; 4])
    requires
        w == (if a.width >= b.width { a.width } else { b.width }),
        (2 * w + 4) * a.height * 4 <= u32::MAX,
        2 * w + 4 <= u32::MAX,
        y < a.height,
        x < 2 * w + 4,
    ensures
        forall|c: int| 0 <= c < 4 ==> px@[c] == side_byte(a.rgba@, a.width as int, b.rgba@, b.width as int, b.height as int, w as int, x as int, y as int, c),
{
    let tw = 2 * w + 4;
    proof {
        assert(a.width * a.height <= tw * a.height) by (nonlinear_arith)
            requires
                a.width < tw,
        ;
        assert(b.width * a.height <= tw * a.height) by (nonlinear_arith)
            requires
                b.width < tw,
        ;
    }
    if x < w {
        if x < a.width {
            proof {
                lemma_row_bound(y as int, x as int, 3, a.width as int, a.height as int);
            }
            let src = ((y * a.width + x) * 4) as usize;
            if src + 3 < a.rgba.len() {
                return [a.rgba[src], a.rgba[src + 1], a.rgba[src + 2], a.rgba[src + 3]];
            }
        }
        [0, 0, 0, 0]
    } else if x < w + 4 {
        [255, 0, 0, 255]
    } else {
        let xb = x - w - 4;
        if y < b.height && xb < b.width {
            proof {
                lemma_row_bound(y as int, xb as int, 3, b.width as int, a.height as int);
            }
            let src = ((y * b.width + xb) * 4) as usize;
            if src + 3 < b.rgba.len() {
                return [b.rgba[src], b.rgba[src + 1], b.rgba[src + 2], b.rgba[src + 3]];
            }
        }
        [0, 0, 0, 0]
    }
}

/// Put two frames side by side, `a` on the left and `b` on the right of a
/// 4-pixel red divider, each in a band as wide as the wider of the two. The
/// result is as tall as `a`; what a frame does not cover stays black.
pub fn compare_frames(a: &Frame, b: &Frame) -> (r: Frame)
    requires
        compare_width(*a, *b) * a.height * 4 <= u32::MAX,
        compare_width(*a, *b) <= u32::MAX,
    ensures
        r.width == compare_width(*a, *b),
        r.height == a.height,
        r.rgba@ == spec_compare(*a, *b),
        r.timestamp_us == 0,
        r.h264_nalu is None,
{
    let w = if a.width >= b.width { a.width } else { b.width };
    let h = a.height;
    let total_w = w * 2 + 4;
    let ghost tw = total_w as int;
    let ghost sa = a.rgba@;
    let ghost sb = b.rgba@;
    let ghost spec_k = |k: int| side_byte(sa, a.width as int, sb, b.width as int, b.height as int, w as int, byte_col(k, tw), byte_row(k, tw), k % 4);
    let mut rgba: Vec<u8> = Vec::new();
    let mut y: u32 = 0;
    while y < h
        invariant
            tw == total_w,
            total_w == 2 * w + 4,
            w == (if a.width >= b.width { a.width } else { b.width }),
            h == a.height,
            total_w * h * 4 <= u32::MAX,
            sa == a.rgba@,
            sb == b.rgba@,
            spec_k == (|k: int| side_byte(sa, a.width as int, sb, b.width as int, b.height as int, w as int, byte_col(k, tw), byte_row(k, tw), k % 4)),
            y <= h,
            rgba@ == Seq::new((y * tw * 4) as nat, spec_k),
        decreases h - y,
    {
        let mut x: u32 = 0;
        while x < total_w
            invariant
                tw == total_w,
                total_w == 2 * w + 4,
                w == (if a.width >= b.width { a.width } else { b.width }),
                h == a.height,
                total_w * h * 4 <= u32::MAX,
                sa == a.rgba@,
                sb == b.rgba@,
                spec_k == (|k: int| side_byte(sa, a.width as int, sb, b.width as int, b.height as int, w as int, byte_col(k, tw), byte_row(k, tw), k % 4)),
                y < h,
                x <= total_w,
                rgba@ == Seq::new(((y * tw + x) * 4) as nat, spec_k),
            decreases total_w - x,
        {
            let px = side_pixel(a, b, w, x, y);
            let ghost before = rgba@;
            rgba.push(px[0]);
            rgba.push(px[1]);
            rgba.push(px[2]);
            rgba.push(px[3]);
            proof {
                assert forall|c: int| 0 <= c < 4 implies #[trigger] spec_k((y * tw + x) * 4 + c) == px@[c] by {
                    lemma_byte_at(y as int, x as int, c, tw);
                }
                assert(rgba@ =~= Seq::new(((y * tw + x + 1) * 4) as nat, spec_k)) by {
                    assert(spec_k((y * tw + x) * 4 + 0) == px@[0]);
                    assert(spec_k((y * tw + x) * 4 + 1) == px@[1]);
                    assert(spec_k((y * tw + x) * 4 + 2) == px@[2]);
                    assert(spec_k((y * tw + x) * 4 + 3) == px@[3]);
                }
            }
            x = x + 1;
        }
        proof {
            assert((y * tw + tw) == (y + 1) * tw) by (nonlinear_arith);
        }
        y = y + 1;
    }
    proof {
        assert(rgba@ =~= spec_compare(*a, *b)) by {
            assert(h * tw == tw * h) by (nonlinear_arith);
        }
    }
    Frame { width: total_w, height: h, rgba, timestamp_us: 0, h264_nalu: None }
}

} // verus!
