//! Smart crop: find the bounding box of the content that differs from the
//! border colour (e.g. a letterboxed app) and cut the frame down to it.
use vstd::prelude::*;
use crate::features::frame::Frame;
use crate::features::screen_diff::{absdiff, byte_diff};
use crate::features::screen_rotation::lemma_row_bound;

verus! {

/// Result of a smart crop: the kept rectangle and its pixels.
pub struct CropResult {
    pub x: u32,
    pub y: u32,
    pub w: u32,
    pub h: u32,
    pub cropped_rgba: Vec<u8>,
}

/// Byte offset of border sample `s` (`0 <= s < 100`): the four corners of a
/// `w` x `h` frame in the order top-left, top-right, bottom-left,
/// bottom-right, each a 5 x 5 block read row by row.
pub open spec fn sample_idx(w: int, h: int, s: int) -> int {
    let corner = s / 25;
    let dy = (s % 25) / 5;
    let dx = s % 5;
    let bx = if corner % 2 == 1 { w - 5 } else { 0 };
    let by = if corner >= 2 { h - 5 } else { 0 };
    ((by + dy) * w + bx + dx) * 4
}

/// Border sample `s` has its colour bytes inside the buffer.
pub open spec fn sample_ok(len: int, w: int, h: int, s: int) -> bool {
    sample_idx(w, h, s) + 2 < len
}

/// Number of the first `n` border samples inside the buffer.
pub open spec fn border_count(len: int, w: int, h: int, n: nat) -> int
    decreases n,
{
    if n == 0 {
        0
    } else {
        border_count(len, w, h, (n - 1) as nat) + if sample_ok(len, w, h, n - 1) {
            1int
        } else {
            0
        }
    }
}

/// Sum of channel `ch` over the first `n` border samples inside the buffer.
pub open spec fn border_sum(rgba: Seq<u8>, w: int, h: int, ch: int, n: nat) -> int
    decreases n,
{
    if n == 0 {
        0
    } else {
        border_sum(rgba, w, h, ch, (n - 1) as nat) + if sample_ok(rgba.len() as int, w, h, n - 1) {
            rgba[sample_idx(w, h, n - 1) + ch] as int
        } else {
            0
        }
    }
}

/// Channel `ch` of the border colour: the mean over the corner samples
/// inside the buffer, or `0` when there are none.
pub open spec fn border_channel(rgba: Seq<u8>, w: int, h: int, ch: int) -> int {
    let n = border_count(rgba.len() as int, w, h, 100);
    if n == 0 {
        0
    } else {
        border_sum(rgba, w, h, ch, 100) / n
    }
}

/// Pixel `(x, y)` has its colour bytes inside the buffer and differs from
/// `bg` by more than `thr` (summed over red, green and blue).
pub open spec fn content_at(rgba: Seq<u8>, w: int, bg: [u8; 3], thr: int, x: int, y: int) -> bool {
    let idx = (y * w + x) * 4;
    &&& idx + 2 < rgba.len()
    &&& absdiff(rgba[idx], bg@[0]) + absdiff(rgba[idx + 1], bg@[1]) + absdiff(rgba[idx + 2], bg@[2]) > thr
}

/// `[x0, x1] x [y0, y1]` is the bounding box of the content pixels of the
/// `w` x `h` frame: every content pixel lies inside and each edge touches one.
pub open spec fn content_box(
    rgba: Seq<u8>,
    w: int,
    h: int,
    bg: [u8; 3],
    thr: int,
    x0: int,
    y0: int,
    x1: int,
    y1: int,
) -> bool {
    &&& 0 <= x0 <= x1 < w
    &&& 0 <= y0 <= y1 < h
    &&& forall|x: int, y: int|
        0 <= x < w && 0 <= y < h && #[trigger] content_at(rgba, w, bg, thr, x, y) ==> x0 <= x <= x1 && y0 <= y
            <= y1
    &&& exists|y: int| 0 <= y < h && #[trigger] content_at(rgba, w, bg, thr, x0, y)
    &&& exists|y: int| 0 <= y < h && #[trigger] content_at(rgba, w, bg, thr, x1, y)
    &&& exists|x: int| 0 <= x < w && #[trigger] content_at(rgba, w, bg, thr, x, y0)
    &&& exists|x: int| 0 <= x < w && #[trigger] content_at(rgba, w, bg, thr, x, y1)
}

/// Rows `y0 .. y0 + n` of the `cw`-pixel-wide column band starting at `x0`,
/// concatenated; a row whose band runs past the buffer is left out.
pub open spec fn crop_rows(rgba: Seq<u8>, w: int, x0: int, cw: int, y0: int, n: nat) -> Seq<u8>
    decreases n,
{
    if n == 0 {
        Seq::empty()
    } else {
        let prev = crop_rows(rgba, w, x0, cw, y0, (n - 1) as nat);
        let start = ((y0 + n - 1) * w + x0) * 4;
        let end = start + cw * 4;
        if end <= rgba.len() {
            prev + rgba.subrange(start, end)
        } else {
            prev
        }
    }
}

/// The sums never exceed `255` per counted sample.
proof fn lemma_border_sum_bound(rgba: Seq<u8>, w: int, h: int, ch: int, n: nat)
    requires
        0 <= ch < 3,
    ensures
        0 <= border_sum(rgba, w, h, ch, n) <= 255 * border_count(rgba.len() as int, w, h, n),
        0 <= border_count(rgba.len() as int, w, h, n) <= n,
    decreases n,
{
    if n > 0 {
        lemma_border_sum_bound(rgba, w, h, ch, (n - 1) as nat);
    }
}

/// Mean colour of the four 5 x 5 corner blocks, used as the background.
fn sample_border_color(rgba: &[u8], w: u32, h: u32) -> (c: [u8; 3])
    requires
        w >= 5,
        h >= 5,
        w * h * 4 <= u32::MAX,
    ensures
        c@[0] == border_channel(rgba@, w as int, h as int, 0),
        c@[1] == border_channel(rgba@, w as int, h as int, 1),
        c@[2] == border_channel(rgba@, w as int, h as int, 2),
{
    let ghost buf = rgba@;
    let ghost wi = w as int;
    let ghost hi = h as int;
    let mut s0: u64 = 0;
    let mut s1: u64 = 0;
    let mut s2: u64 = 0;
    let mut count: u64 = 0;
    let mut s: u32 = 0;
    while s < 100
        invariant
            buf == rgba@,
            wi == w,
            hi == h,
            w >= 5,
            h >= 5,
            w * h * 4 <= u32::MAX,
            s <= 100,
            count == border_count(buf.len() as int, wi, hi, s as nat),
            s0 == border_sum(buf, wi, hi, 0, s as nat),
            s1 == border_sum(buf, wi, hi, 1, s as nat),
            s2 == border_sum(buf, wi, hi, 2, s as nat),
        decreases 100 - s,
    {
        proof {
            lemma_border_sum_bound(buf, wi, hi, 0, s as nat);
            lemma_border_sum_bound(buf, wi, hi, 1, s as nat);
            lemma_border_sum_bound(buf, wi, hi, 2, s as nat);
        }
        let corner = s / 25;
        let dy = (s % 25) / 5;
        let dx = s % 5;
        let bx = if corner % 2 == 1 { w - 5 } else { 0 };
        let by = if corner >= 2 { h - 5 } else { 0 };
        proof {
            lemma_row_bound((by + dy) as int, (bx + dx) as int, 3, wi, hi);
        }
        let idx = (((by + dy) * w + (bx + dx)) * 4) as usize;
        proof {
            assert(idx == sample_idx(wi, hi, s as int));
        }
        if idx + 2 < rgba.len() {
            s0 = s0 + rgba[idx] as u64;
            s1 = s1 + rgba[idx + 1] as u64;
            s2 = s2 + rgba[idx + 2] as u64;
            count = count + 1;
        }
        s = s + 1;
    }
    proof {
        lemma_border_sum_bound(buf, wi, hi, 0, 100);
        lemma_border_sum_bound(buf, wi, hi, 1, 100);
        lemma_border_sum_bound(buf, wi, hi, 2, 100);
    }
    if count == 0 {
        return [0, 0, 0];
    }
    proof {
        assert(s0 / count <= 255) by (nonlinear_arith)
            requires
                s0 <= 255 * count,
                count > 0,
        ;
        assert(s1 / count <= 255) by (nonlinear_arith)
            requires
                s1 <= 255 * count,
                count > 0,
        ;
        assert(s2 / count <= 255) by (nonlinear_arith)
            requires
                s2 <= 255 * count,
                count > 0,
        ;
    }
    [(s0 / count) as u8, (s1 / count) as u8, (s2 / count) as u8]
}

/// Pixel `(x, y)` has been visited once the scan is at row `y`, column `x`.
pub open spec fn scanned(xx: int, yy: int, x: int, y: int) -> bool {
    yy < y || (yy == y && xx < x)
}

/// What the scan knows once it has visited every pixel before `(x, y)`.
spec fn scan_state(
    rgba: Seq<u8>,
    w: int,
    h: int,
    bg: [u8; 3],
    thr: int,
    x: int,
    y: int,
    found: bool,
    min_x: int,
    min_y: int,
    max_x: int,
    max_y: int,
) -> bool {
    &&& found ==> 0 <= min_x <= max_x < w && 0 <= min_y <= max_y < h
    &&& !found ==> min_x == w && min_y == h && max_x == 0 && max_y == 0
    &&& forall|xx: int, yy: int|
        0 <= xx < w && 0 <= yy < h && scanned(xx, yy, x, y) && #[trigger] content_at(rgba, w, bg, thr, xx, yy)
            ==> found && min_x <= xx <= max_x && min_y <= yy <= max_y
    &&& found ==> exists|yy: int| 0 <= yy < h && #[trigger] content_at(rgba, w, bg, thr, min_x, yy)
    &&& found ==> exists|yy: int| 0 <= yy < h && #[trigger] content_at(rgba, w, bg, thr, max_x, yy)
    &&& found ==> exists|xx: int| 0 <= xx < w && #[trigger] content_at(rgba, w, bg, thr, xx, min_y)
    &&& found ==> exists|xx: int| 0 <= xx < w && #[trigger] content_at(rgba, w, bg, thr, xx, max_y)
}

/// Find the bounding box of the pixels that differ from the border colour by
/// more than `bg_threshold`, and cut the frame down to it. When there is no
/// such pixel, the whole frame is kept.
pub fn smart_crop(frame: &Frame, bg_threshold: u32) -> (r: CropResult)
    requires
        frame.width >= 5,
        frame.height >= 5,
        frame.width * frame.height * 4 <= u32::MAX,
    ensures
        ({
            let w = frame.width as int;
            let h = frame.height as int;
            let bg = [
                border_channel(frame.rgba@, w, h, 0) as u8,
                border_channel(frame.rgba@, w, h, 1) as u8,
                border_channel(frame.rgba@, w, h, 2) as u8,
            ];
            let thr = bg_threshold as int;
            ||| (r.w >= 1 && r.h >= 1 && content_box(frame.rgba@, w, h, bg, thr, r.x as int, r.y as int, r.x + r.w - 1, r.y + r.h - 1)
                && r.cropped_rgba@ == crop_rows(frame.rgba@, w, r.x as int, r.w as int, r.y as int, r.h as nat))
            ||| (r.x == 0 && r.y == 0 && r.w == w && r.h == h && r.cropped_rgba@ == frame.rgba@
                && forall|x: int, y: int|
                    0 <= x < w && 0 <= y < h ==> !#[trigger] content_at(frame.rgba@, w, bg, thr, x, y))
        }),
{
    let w = frame.width;
    let h = frame.height;
    let bg = sample_border_color(frame.rgba.as_slice(), w, h);
    let ghost rgba = frame.rgba@;
    let ghost wi = w as int;
    let ghost hi = h as int;
    let ghost thr = bg_threshold as int;
    proof {
        assert(bg == [
            border_channel(rgba, wi, hi, 0) as u8,
            border_channel(rgba, wi, hi, 1) as u8,
            border_channel(rgba, wi, hi, 2) as u8,
        ]);
    }
    let mut min_x = w;
    let mut min_y = h;
    let mut max_x: u32 = 0;
    let mut max_y: u32 = 0;
    let ghost mut found = false;
    let mut y: u32 = 0;
    while y < h
        invariant
            rgba == frame.rgba@,
            wi == w,
            hi == h,
            thr == bg_threshold,
            w >= 5,
            h >= 5,
            w * h * 4 <= u32::MAX,
            y <= h,
            scan_state(rgba, wi, hi, bg, thr, 0, y as int, found, min_x as int, min_y as int, max_x as int, max_y as int),
        decreases h - y,
    {
        let mut x: u32 = 0;
        while x < w
            invariant
                rgba == frame.rgba@,
                wi == w,
                hi == h,
                thr == bg_threshold,
                w >= 5,
                h >= 5,
                w * h * 4 <= u32::MAX,
                y < h,
                x <= w,
                scan_state(rgba, wi, hi, bg, thr, x as int, y as int, found, min_x as int, min_y as int, max_x as int, max_y as int),
            decreases w - x,
        {
            proof {
                lemma_row_bound(y as int, x as int, 3, wi, hi);
            }
            let idx = ((y * w + x) * 4) as usize;
            let ghost before_found = found;
            if idx + 2 < frame.rgba.len() {
                let d = byte_diff(frame.rgba[idx], bg[0]) + byte_diff(frame.rgba[idx + 1], bg[1]) + byte_diff(
                    frame.rgba[idx + 2],
                    bg[2],
                );
                if d > bg_threshold {
                    proof {
                        assert(content_at(rgba, wi, bg, thr, x as int, y as int));
                    }
                    if x < min_x {
                        min_x = x;
                    }
                    if y < min_y {
                        min_y = y;
                    }
                    if x > max_x {
                        max_x = x;
                    }
                    if y > max_y {
                        max_y = y;
                    }
                    proof {
                        found = true;
                    }
                }
            }
            proof {
                assert forall|xx: int, yy: int|
                    0 <= xx < wi && 0 <= yy < hi && scanned(xx, yy, x + 1, y as int) && #[trigger] content_at(
                        rgba,
                        wi,
                        bg,
                        thr,
                        xx,
                        yy,
                    ) implies found && min_x <= xx <= max_x && min_y <= yy <= max_y by {
                    if !scanned(xx, yy, x as int, y as int) {
                        assert(xx == x && yy == y);
                    }
                }
            }
            x = x + 1;
        }
        proof {
            assert forall|xx: int, yy: int|
                0 <= xx < wi && 0 <= yy < hi && scanned(xx, yy, 0, y + 1) && #[trigger] content_at(rgba, wi, bg, thr, xx, yy)
                    implies found && min_x <= xx <= max_x && min_y <= yy <= max_y by {
                assert(scanned(xx, yy, w as int, y as int));
            }
        }
        y = y + 1;
    }
    if min_x > max_x {
        proof {
            assert forall|x: int, y: int| 0 <= x < wi && 0 <= y < hi implies !#[trigger] content_at(rgba, wi, bg, thr, x, y) by {
                assert(scanned(x, y, 0, hi));
            }
        }
        let copy = frame.rgba.clone();
        proof {
            assert(copy@ == frame.rgba@);
        }
        return CropResult { x: 0, y: 0, w, h, cropped_rgba: copy };
    }
    let crop_w = max_x - min_x + 1;
    let crop_h = max_y - min_y + 1;
    let mut cropped: Vec<u8> = Vec::new();
    let mut cy = min_y;
    while cy <= max_y
        invariant
            rgba == frame.rgba@,
            wi == w,
            hi == h,
            w * h * 4 <= u32::MAX,
            min_x <= max_x < w,
            min_y <= max_y < h,
            crop_w == max_x - min_x + 1,
            min_y <= cy <= max_y + 1,
            cropped@ == crop_rows(rgba, wi, min_x as int, crop_w as int, min_y as int, (cy - min_y) as nat),
        decreases max_y + 1 - cy,
    {
        proof {
            lemma_row_bound(cy as int, max_x as int, 3, wi, hi);
        }
        let start = ((cy * w + min_x) * 4) as usize;
        let end = start + (crop_w * 4) as usize;
        if end <= frame.rgba.len() {
            let ghost prev = cropped@;
            let mut i = start;
            while i < end
                invariant
                    rgba == frame.rgba@,
                    start <= i <= end,
                    end <= rgba.len(),
                    cropped@ == prev + rgba.subrange(start as int, i as int),
                decreases end - i,
            {
                cropped.push(frame.rgba[i]);
                proof {
                    assert(cropped@ =~= prev + rgba.subrange(start as int, i + 1));
                }
                i = i + 1;
            }
        }
        cy = cy + 1;
    }
    proof {
        assert(content_box(rgba, wi, hi, bg, thr, min_x as int, min_y as int, max_x as int, max_y as int)) by {
            assert forall|x: int, y: int|
                0 <= x < wi && 0 <= y < hi && #[trigger] content_at(rgba, wi, bg, thr, x, y) implies min_x <= x <= max_x
                    && min_y <= y <= max_y by {
                assert(scanned(x, y, 0, hi));
            }
        }
    }
    CropResult { x: min_x, y: min_y, w: crop_w, h: crop_h, cropped_rgba: cropped }
}

} // verus!
