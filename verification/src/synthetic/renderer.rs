//! Procedural iPhone-shaped mock screen for synthetic mode.
//!
//! Each frame is drawn from the current `StateSnapshot`: the home grid (with
//! its current page) or an opened app view, over a gradient wallpaper, with a
//! status bar, a long-press highlight and a frame counter. Pixels are RGBA,
//! row-major, addressed as `y * width + x`.
use vstd::prelude::*;
use vstd::arithmetic::div_mod::lemma_fundamental_div_mod_converse;
use crate::features::stats_overlay::{draw_text, spec_text};
use crate::synthetic::layout::{
    self, slot_rect, spec_app_letter, GRID_COLS, GRID_ROWS, GRID_TOP, ICON_SIZE, SLOTS_PER_PAGE,
    STATUS_BAR_H,
};
use crate::synthetic::layout::{spec_home_indicator_zone, GLYPH_ADVANCE};
use crate::synthetic::state::{InputKind, Screen, StateSnapshot, FLASH_DURATION_US, HOME_PAGES};
use crate::synthetic::SyntheticDeviceInfo;
use crate::text::{dec_digits, decimal_padded, lemma_dec_digits_len, lemma_u64_digits, pow10, zero_pad};

verus! {

/// `buf` with every pixel in `lit` set to RGBA colour `c`, for each pixel
/// whose four bytes lie inside the buffer.
pub open spec fn paint_rgba(buf: Seq<u8>, lit: spec_fn(int) -> bool, c: [u8; 4]) -> Seq<u8> {
    Seq::new(
        buf.len(),
        |k: int|
            if (k / 4) * 4 + 3 < buf.len() && lit(k / 4) {
                c@[k % 4]
            } else {
                buf[k]
            },
    )
}

/// Pixels of rows `[y0, y1)` and columns `[x0, x1)` on a `w`-wide canvas.
pub open spec fn rect_lit(w: int, x0: int, x1: int, y0: int, y1: int) -> spec_fn(int) -> bool {
    |p: int| w > 0 && y0 <= p / w < y1 && x0 <= p % w < x1
}

/// `buf` after `fill_rect`: the rectangle clipped to the `w` x `h` canvas.
pub open spec fn spec_fill(
    buf: Seq<u8>,
    w: int,
    h: int,
    x: int,
    y: int,
    rw: int,
    rh: int,
    c: [u8; 4],
) -> Seq<u8> {
    let xe = if x + rw < w { x + rw } else { w };
    let ye = if y + rh < h { y + rh } else { h };
    paint_rgba(buf, rect_lit(w, x, xe, y, ye), c)
}

/// Column and row of pixel `yy * w + xx`.
proof fn lemma_coords(w: int, xx: int, yy: int)
    requires
        0 <= xx < w,
        0 <= yy,
    ensures
        (yy * w + xx) / w == yy,
        (yy * w + xx) % w == xx,
{
    lemma_fundamental_div_mod_converse(yy * w + xx, w, yy, xx);
}

/// Painting one more pixel `p` extends the painted set by `p`.
proof fn lemma_paint_one(buf: Seq<u8>, l1: spec_fn(int) -> bool, l2: spec_fn(int) -> bool, p: int, c: [u8; 4])
    requires
        forall|q: int| #[trigger] l2(q) == (l1(q) || q == p),
    ensures
        paint_rgba(paint_rgba(buf, l1, c), |q: int| q == p, c) == paint_rgba(buf, l2, c),
{
    assert(paint_rgba(paint_rgba(buf, l1, c), |q: int| q == p, c) =~= paint_rgba(buf, l2, c));
}

/// Set pixel `(x, y)` to `c` if its four bytes lie inside the buffer.
fn put(rgba: &mut [u8], w: u32, x: u32, y: u32, c: [u8; 4])
    requires
        (y * w + x) * 4 <= u32::MAX,
    ensures
        final(rgba)@ == paint_rgba(old(rgba)@, |q: int| q == y * w + x, c),
{
    assert(y * w <= u32::MAX) by (nonlinear_arith)
        requires
            (y * w + x) * 4 <= u32::MAX,
    ;
    let i = ((y * w + x) * 4) as usize;
    if i + 3 < rgba.len() {
        rgba[i] = c[0];
        rgba[i + 1] = c[1];
        rgba[i + 2] = c[2];
        rgba[i + 3] = c[3];
    }
    proof {
        let p = y * w + x;
        assert(forall|k: int| 0 <= k < old(rgba)@.len() && #[trigger] (k / 4) == p ==> i <= k < i + 4 && k % 4 == k - i) by {
            assert forall|k: int| 0 <= k < old(rgba)@.len() && #[trigger] (k / 4) == p implies i <= k < i + 4 && k % 4 == k - i by {
                lemma_fundamental_div_mod_converse(k, 4, p, k - i);
            }
        }
        assert forall|k: int| i <= k < i + 4 implies #[trigger] (k / 4) == p && k % 4 == k - i by {
            lemma_fundamental_div_mod_converse(k, 4, p, k - i);
        }
        assert(rgba@ =~= paint_rgba(old(rgba)@, |q: int| q == p, c));
    }
}

/// Fill the rectangle `[x, x+rw) x [y, y+rh)` clipped to the canvas.
fn fill_rect(rgba: &mut [u8], w: u32, h: u32, x: u32, y: u32, rw: u32, rh: u32, c: [u8; 4])
    requires
        w * h * 4 <= u32::MAX,
        x + rw <= u32::MAX,
        y + rh <= u32::MAX,
    ensures
        final(rgba)@ == spec_fill(old(rgba)@, w as int, h as int, x as int, y as int, rw as int, rh as int, c),
{
    let xe = if x + rw < w { x + rw } else { w };
    let ye = if y + rh < h { y + rh } else { h };
    let ghost orig = rgba@;
    let mut yy = y;
    proof {
        assert(paint_rgba(orig, rect_lit(w as int, x as int, xe as int, y as int, y as int), c) =~= orig);
    }
    while yy < ye
        invariant
            y <= yy,
            ye <= h,
            xe <= w,
            w * h * 4 <= u32::MAX,
            yy <= ye || yy == y,
            rgba@ == paint_rgba(orig, rect_lit(w as int, x as int, xe as int, y as int, yy as int), c),
        decreases ye - yy,
    {
        let mut xx = x;
        let ghost row_start = rgba@;
        proof {
            assert(paint_rgba(orig, |q: int| rect_lit(w as int, x as int, xe as int, y as int, yy as int)(q) || (w > 0 && q / (w as int) == yy && x <= q % (w as int) < x), c) =~= rgba@);
        }
        while xx < xe
            invariant
                y <= yy < ye,
                ye <= h,
                xe <= w,
                x <= xx,
                xx <= xe || xx == x,
                w * h * 4 <= u32::MAX,
                rgba@ == paint_rgba(orig, |q: int| rect_lit(w as int, x as int, xe as int, y as int, yy as int)(q) || (w > 0 && q / (w as int) == yy && x <= q % (w as int) < xx), c),
            decreases xe - xx,
        {
            assert((yy * w + xx) * 4 < w * h * 4) by (nonlinear_arith)
                requires
                    yy < h,
                    xx < w,
            ;
            put(rgba, w, xx, yy, c);
            proof {
                let p = yy * w + xx;
                lemma_coords(w as int, xx as int, yy as int);
                let l1 = |q: int| rect_lit(w as int, x as int, xe as int, y as int, yy as int)(q) || (w > 0 && q / (w as int) == yy && x <= q % (w as int) < xx);
                let l2 = |q: int| rect_lit(w as int, x as int, xe as int, y as int, yy as int)(q) || (w > 0 && q / (w as int) == yy && x <= q % (w as int) < xx + 1);
                assert forall|q: int| #[trigger] l2(q) == (l1(q) || q == p) by {
                    if w > 0 && q / (w as int) == yy && q % (w as int) == xx {
                        vstd::arithmetic::div_mod::lemma_fundamental_div_mod(q, w as int);
                    }
                    if q == p {
                        lemma_coords(w as int, xx as int, yy as int);
                    }
                }
                lemma_paint_one(orig, l1, l2, p as int, c);
            }
            xx = xx + 1;
        }
        proof {
            let l1 = |q: int| rect_lit(w as int, x as int, xe as int, y as int, yy as int)(q) || (w > 0 && q / (w as int) == yy && x <= q % (w as int) < xx);
            let l2 = rect_lit(w as int, x as int, xe as int, y as int, yy + 1);
            assert forall|q: int| #[trigger] l2(q) == l1(q) by {}
            assert(paint_rgba(orig, l1, c) =~= paint_rgba(orig, l2, c));
        }
        yy = yy + 1;
    }
}


/// A colour channel under black laid on at alpha 200 of 255: what shows
/// through is 55/255 of it, rounded down.
pub open spec fn shade_byte(b: u8) -> u8 {
    (b as int * 55 / 255) as u8
}

/// `buf` with every pixel in `lit` (whose four bytes lie inside the buffer)
/// darkened by a black plate at alpha 200, blended into its colour; the
/// pixel stays opaque.
pub open spec fn shade_rgba(buf: Seq<u8>, lit: spec_fn(int) -> bool) -> Seq<u8> {
    Seq::new(
        buf.len(),
        |k: int|
            if (k / 4) * 4 + 3 < buf.len() && lit(k / 4) {
                if k % 4 == 3 {
                    255u8
                } else {
                    shade_byte(buf[k])
                }
            } else {
                buf[k]
            },
    )
}

/// `buf` after `shade_rect`: the rectangle clipped to the `w` x `h` canvas.
pub open spec fn spec_shade(buf: Seq<u8>, w: int, h: int, x: int, y: int, rw: int, rh: int) -> Seq<u8> {
    let xe = if x + rw < w { x + rw } else { w };
    let ye = if y + rh < h { y + rh } else { h };
    shade_rgba(buf, rect_lit(w, x, xe, y, ye))
}

/// Shading one more pixel `p`, not shaded before, extends the shaded set by `p`.
proof fn lemma_shade_one(buf: Seq<u8>, l1: spec_fn(int) -> bool, l2: spec_fn(int) -> bool, p: int)
    requires
        !l1(p),
        forall|q: int| #[trigger] l2(q) == (l1(q) || q == p),
    ensures
        shade_rgba(shade_rgba(buf, l1), |q: int| q == p) == shade_rgba(buf, l2),
{
    assert(shade_rgba(shade_rgba(buf, l1), |q: int| q == p) =~= shade_rgba(buf, l2));
}

/// Darken pixel `(x, y)` under the plate, if its four bytes lie inside the buffer.
fn shade_px(rgba: &mut [u8], w: u32, x: u32, y: u32)
    requires
        (y * w + x) * 4 <= u32::MAX,
    ensures
        final(rgba)@ == shade_rgba(old(rgba)@, |q: int| q == y * w + x),
{
    assert(y * w <= u32::MAX) by (nonlinear_arith)
        requires
            (y * w + x) * 4 <= u32::MAX,
    ;
    let i = ((y * w + x) * 4) as usize;
    if i + 3 < rgba.len() {
        rgba[i] = (rgba[i] as u32 * 55 / 255) as u8;
        rgba[i + 1] = (rgba[i + 1] as u32 * 55 / 255) as u8;
        rgba[i + 2] = (rgba[i + 2] as u32 * 55 / 255) as u8;
        rgba[i + 3] = 255;
    }
    proof {
        let p = y * w + x;
        assert(forall|k: int| 0 <= k < old(rgba)@.len() && #[trigger] (k / 4) == p ==> i <= k < i + 4 && k % 4 == k - i) by {
            assert forall|k: int| 0 <= k < old(rgba)@.len() && #[trigger] (k / 4) == p implies i <= k < i + 4 && k % 4 == k - i by {
                lemma_fundamental_div_mod_converse(k, 4, p, k - i);
            }
        }
        assert forall|k: int| i <= k < i + 4 implies #[trigger] (k / 4) == p && k % 4 == k - i by {
            lemma_fundamental_div_mod_converse(k, 4, p, k - i);
        }
        assert(rgba@ =~= shade_rgba(old(rgba)@, |q: int| q == p));
    }
}

/// Darken the rectangle `[x, x+rw) x [y, y+rh)`, clipped to the canvas, as
/// under a black plate at alpha 200; the pixels stay opaque.
fn shade_rect(rgba: &mut [u8], w: u32, h: u32, x: u32, y: u32, rw: u32, rh: u32)
    requires
        w * h * 4 <= u32::MAX,
        x + rw <= u32::MAX,
        y + rh <= u32::MAX,
    ensures
        final(rgba)@ == spec_shade(old(rgba)@, w as int, h as int, x as int, y as int, rw as int, rh as int),
{
    let xe = if x + rw < w { x + rw } else { w };
    let ye = if y + rh < h { y + rh } else { h };
    let ghost orig = rgba@;
    let mut yy = y;
    proof {
        assert(shade_rgba(orig, rect_lit(w as int, x as int, xe as int, y as int, y as int)) =~= orig);
    }
    while yy < ye
        invariant
            y <= yy,
            ye <= h,
            xe <= w,
            w * h * 4 <= u32::MAX,
            yy <= ye || yy == y,
            rgba@ == shade_rgba(orig, rect_lit(w as int, x as int, xe as int, y as int, yy as int)),
        decreases ye - yy,
    {
        let mut xx = x;
        proof {
            assert(shade_rgba(orig, |q: int| rect_lit(w as int, x as int, xe as int, y as int, yy as int)(q) || (w > 0 && q / (w as int) == yy && x <= q % (w as int) < x)) =~= rgba@);
        }
        while xx < xe
            invariant
                y <= yy < ye,
                ye <= h,
                xe <= w,
                x <= xx,
                xx <= xe || xx == x,
                w * h * 4 <= u32::MAX,
                rgba@ == shade_rgba(orig, |q: int| rect_lit(w as int, x as int, xe as int, y as int, yy as int)(q) || (w > 0 && q / (w as int) == yy && x <= q % (w as int) < xx)),
            decreases xe - xx,
        {
            assert((yy * w + xx) * 4 < w * h * 4) by (nonlinear_arith)
                requires
                    yy < h,
                    xx < w,
            ;
            shade_px(rgba, w, xx, yy);
            proof {
                let p = yy * w + xx;
                lemma_coords(w as int, xx as int, yy as int);
                let l1 = |q: int| rect_lit(w as int, x as int, xe as int, y as int, yy as int)(q) || (w > 0 && q / (w as int) == yy && x <= q % (w as int) < xx);
                let l2 = |q: int| rect_lit(w as int, x as int, xe as int, y as int, yy as int)(q) || (w > 0 && q / (w as int) == yy && x <= q % (w as int) < xx + 1);
                assert forall|q: int| #[trigger] l2(q) == (l1(q) || q == p) by {
                    if w > 0 && q / (w as int) == yy && q % (w as int) == xx {
                        vstd::arithmetic::div_mod::lemma_fundamental_div_mod(q, w as int);
                    }
                    if q == p {
                        lemma_coords(w as int, xx as int, yy as int);
                    }
                }
                assert(!l1(p as int));
                lemma_shade_one(orig, l1, l2, p as int);
            }
            xx = xx + 1;
        }
        proof {
            let l1 = |q: int| rect_lit(w as int, x as int, xe as int, y as int, yy as int)(q) || (w > 0 && q / (w as int) == yy && x <= q % (w as int) < xx);
            let l2 = rect_lit(w as int, x as int, xe as int, y as int, yy + 1);
            assert forall|q: int| #[trigger] l2(q) == l1(q) by {}
            assert(shade_rgba(orig, l1) =~= shade_rgba(orig, l2));
        }
        yy = yy + 1;
    }
}

/// Pixels of rows `[y0, y1)` of a `w`-wide canvas, each row painted the colour
/// `f` gives it.
pub open spec fn paint_rows(buf: Seq<u8>, w: int, y0: int, y1: int, f: spec_fn(int) -> [u8; 4]) -> Seq<u8> {
    Seq::new(
        buf.len(),
        |k: int|
            if w > 0 && y0 <= (k / 4) / w < y1 && (k / 4) * 4 + 3 < buf.len() {
                f((k / 4) / w)@[k % 4]
            } else {
                buf[k]
            },
    )
}

/// Painting row `y` after rows `[y0, y)` paints rows `[y0, y + 1)`.
proof fn lemma_rows_extend(buf: Seq<u8>, w: int, h: int, y0: int, y: int, f: spec_fn(int) -> [u8; 4])
    requires
        y0 <= y < h,
    ensures
        paint_rgba(paint_rows(buf, w, y0, y, f), rect_lit(w, 0, w, y, y + 1), f(y)) == paint_rows(buf, w, y0, y + 1, f),
{
    assert forall|k: int| 0 <= k < buf.len() && w > 0 implies 0 <= #[trigger] ((k / 4) % w) < w by {}
    assert(paint_rgba(paint_rows(buf, w, y0, y, f), rect_lit(w, 0, w, y, y + 1), f(y)) =~= paint_rows(buf, w, y0, y + 1, f));
}

/// Paint rows `[y0, y1)` of the canvas with `f` applied to each row index.
/// The caller passes the row colours already evaluated: `colors[r - y0]`.
fn fill_rows(rgba: &mut [u8], w: u32, h: u32, y0: u32, y1: u32, colors: &Vec<[u8; 4]>, Ghost(f): Ghost<spec_fn(int) -> [u8; 4]>)
    requires
        w * h * 4 <= u32::MAX,
        y0 <= y1 <= h,
        colors@.len() == y1 - y0,
        forall|r: int| y0 <= r < y1 ==> #[trigger] f(r) == colors@[r - y0],
    ensures
        final(rgba)@ == paint_rows(old(rgba)@, w as int, y0 as int, y1 as int, f),
{
    let ghost orig = rgba@;
    let mut y = y0;
    proof {
        assert(paint_rows(orig, w as int, y0 as int, y0 as int, f) =~= orig);
    }
    while y < y1
        invariant
            y0 <= y <= y1,
            y1 <= h,
            w * h * 4 <= u32::MAX,
            colors@.len() == y1 - y0,
            forall|r: int| y0 <= r < y1 ==> #[trigger] f(r) == colors@[r - y0],
            rgba@ == paint_rows(orig, w as int, y0 as int, y as int, f),
        decreases y1 - y,
    {
        let c = colors[(y - y0) as usize];
        assert(f(y as int) == c);
        fill_rect(rgba, w, h, 0, y, w, 1, c);
        proof {
            lemma_rows_extend(orig, w as int, h as int, y0 as int, y as int, f);
        }
        y = y + 1;
    }
}

/// Wallpaper colour of row `y` of `h`: a vertical gradient from deep navy to
/// dark purple.
pub open spec fn wall_color(y: int, h: int) -> [u8; 4] {
    [(10 + 40 * y / h) as u8, (15 + 5 * y / h) as u8, (40 + 30 * y / h) as u8, 255u8]
}

/// The canvas covered by the wallpaper gradient.
pub open spec fn spec_wallpaper(buf: Seq<u8>, w: int, h: int) -> Seq<u8> {
    paint_rows(buf, w, 0, h, |y: int| wall_color(y, h))
}

fn draw_wallpaper(rgba: &mut [u8], w: u32, h: u32)
    requires
        w * h * 4 <= u32::MAX,
    ensures
        final(rgba)@ == spec_wallpaper(old(rgba)@, w as int, h as int),
{
    let ghost f = |y: int| wall_color(y, h as int);
    let mut colors: Vec<[u8; 4]> = Vec::new();
    let mut y: u32 = 0;
    while y < h
        invariant
            y <= h,
            f == (|r: int| wall_color(r, h as int)),
            colors@.len() == y,
            forall|r: int| 0 <= r < y ==> #[trigger] f(r) == colors@[r],
        decreases h - y,
    {
        let hh = h as u64;
        let yy = y as u64;
        assert((40 * yy) as int / hh as int <= 40 && (5 * yy) as int / hh as int <= 5 && (30 * yy) as int / hh as int <= 30) by (nonlinear_arith)
            requires
                yy < hh,
        ;
        let r = (10 + 40 * yy / hh) as u8;
        let g = (15 + 5 * yy / hh) as u8;
        let b = (40 + 30 * yy / hh) as u8;
        colors.push([r, g, b, 255]);
        proof {
            let wc = wall_color(y as int, h as int);
            assert(wc[0] == r);
            assert(wc[1] == g);
            assert(wc[2] == b);
            assert(wc[3] == 255u8);
            assert(wc =~= [r, g, b, 255u8]);
            assert(f(y as int) == wc);
        }
        y = y + 1;
    }
    fill_rows(rgba, w, h, 0, h, &colors, Ghost(f));
}


pub open spec fn white3() -> [u8; 3] {
    [0xFFu8, 0xFFu8, 0xFFu8]
}

pub open spec fn white4() -> [u8; 4] {
    [0xFFu8, 0xFFu8, 0xFFu8, 0xFFu8]
}

/// The 8-colour icon palette, indexed by global app index modulo 8.
pub open spec fn spec_palette(i: int) -> [u8; 4] {
    if i == 0 {
        [220u8, 60u8, 60u8, 255u8]
    } else if i == 1 {
        [60u8, 180u8, 80u8, 255u8]
    } else if i == 2 {
        [60u8, 120u8, 220u8, 255u8]
    } else if i == 3 {
        [220u8, 180u8, 50u8, 255u8]
    } else if i == 4 {
        [180u8, 80u8, 200u8, 255u8]
    } else if i == 5 {
        [240u8, 130u8, 50u8, 255u8]
    } else if i == 6 {
        [50u8, 200u8, 220u8, 255u8]
    } else {
        [200u8, 200u8, 200u8, 255u8]
    }
}

fn palette(i: u32) -> (c: [u8; 4])
    requires
        i < 8,
    ensures
        c == spec_palette(i as int),
{
    match i {
        0 => [220, 60, 60, 255],
        1 => [60, 180, 80, 255],
        2 => [60, 120, 220, 255],
        3 => [220, 180, 50, 255],
        4 => [180, 80, 200, 255],
        5 => [240, 130, 50, 255],
        6 => [50, 200, 220, 255],
        _ => [200, 200, 200, 255],
    }
}

/// `w - v`, or 0 when `v > w`.
pub open spec fn sat_sub(w: int, v: int) -> int {
    if w >= v { w - v } else { 0 }
}

/// The status-bar clock: 09:41 plus the elapsed time, as `HH:MM`.
pub open spec fn clock_text(secs: int) -> Seq<char> {
    zero_pad(dec_digits(((9 + secs / 3600) % 24) as nat), 2) + seq![':'] + zero_pad(
        dec_digits(((41 + secs / 60) % 60) as nat),
        2,
    )
}

/// Black status bar with clock, carrier, battery percentage and battery icon.
pub open spec fn spec_status_bar(buf: Seq<u8>, w: int, h: int, us: int) -> Seq<u8> {
    let b1 = spec_fill(buf, w, h, 0, 0, w, STATUS_BAR_H as int, [0u8, 0u8, 0u8, 255u8]);
    let b2 = spec_text(b1, w, 14, 18, clock_text(us / 1_000_000), white3());
    let b3 = spec_text(b2, w, 100, 18, seq!['L', 'T', 'E'], [0xC8u8, 0xC8u8, 0xC8u8]);
    let b4 = spec_text(b3, w, sat_sub(w, 52), 18, seq!['1', '0', '0', '%'], white3());
    let b5 = spec_fill(b4, w, h, sat_sub(w, 22), 19, 16, 9, white4());
    let b6 = spec_fill(b5, w, h, sat_sub(w, 21), 20, 14, 7, [0x32u8, 0xC8u8, 0x50u8, 0xFFu8]);
    spec_fill(b6, w, h, sat_sub(w, 6), 21, 2, 5, white4())
}

fn draw_status_bar(rgba: &mut [u8], w: u32, h: u32, elapsed_us: u64)
    requires
        w * h * 4 <= u32::MAX,
    ensures
        final(rgba)@ == spec_status_bar(old(rgba)@, w as int, h as int, elapsed_us as int),
{
    fill_rect(rgba, w, h, 0, 0, w, STATUS_BAR_H, [0, 0, 0, 255]);
    let secs = elapsed_us / 1_000_000;
    let hh = (9 + secs / 3600) % 24;
    let mm = (41 + secs / 60) % 60;
    let mut clock = decimal_padded(hh, 2);
    clock.push(':');
    let mins = decimal_padded(mm, 2);
    let mut i: usize = 0;
    let ghost head = clock@;
    while i < mins.len()
        invariant
            i <= mins@.len(),
            clock@ == head + mins@.subrange(0, i as int),
        decreases mins@.len() - i,
    {
        clock.push(mins[i]);
        proof {
            assert(clock@ =~= head + mins@.subrange(0, i + 1));
        }
        i = i + 1;
    }
    proof {
        assert(mins@.subrange(0, mins@.len() as int) =~= mins@);
        assert(clock@ =~= clock_text(secs as int));
        reveal_with_fuel(pow10, 3);
        lemma_dec_digits_len(hh as nat, 2);
        lemma_dec_digits_len(mm as nat, 2);
    }
    draw_text(rgba, w, 14, 18, clock.as_slice(), [0xFF, 0xFF, 0xFF]);
    let lte = ['L', 'T', 'E'];
    assert(lte@ =~= seq!['L', 'T', 'E']);
    draw_text(rgba, w, 100, 18, &lte, [0xC8, 0xC8, 0xC8]);
    let pct = ['1', '0', '0', '%'];
    assert(pct@ =~= seq!['1', '0', '0', '%']);
    draw_text(rgba, w, w.saturating_sub(24 + 28), 18, &pct, [0xFF, 0xFF, 0xFF]);
    fill_rect(rgba, w, h, w.saturating_sub(22), 19, 16, 9, [0xFF, 0xFF, 0xFF, 0xFF]);
    fill_rect(rgba, w, h, w.saturating_sub(21), 20, 14, 7, [0x32, 0xC8, 0x50, 0xFF]);
    fill_rect(rgba, w, h, w.saturating_sub(6), 21, 2, 5, [0xFF, 0xFF, 0xFF, 0xFF]);
}

/// The first `n` icons of page `page`: a tile in the icon's palette colour
/// with its letter roughly centred.
pub open spec fn spec_grid(buf: Seq<u8>, w: u32, h: u32, page: u32, n: int) -> Seq<u8>
    decreases n,
{
    if n <= 0 {
        buf
    } else {
        let prev = spec_grid(buf, w, h, page, n - 1);
        let slot = n - 1;
        let index = page * SLOTS_PER_PAGE + slot;
        let r = slot_rect(w, slot as u32);
        let tiled = spec_fill(prev, w as int, h as int, r.x as int, r.y as int, r.w as int, r.h as int, spec_palette(index % 8));
        spec_text(tiled, w as int, r.x + 27, r.y + 26, seq![spec_app_letter(index as u32)], white3())
    }
}

fn draw_app_grid(rgba: &mut [u8], w: u32, h: u32, home_page: u32)
    requires
        w * h * 4 <= u32::MAX,
        home_page * SLOTS_PER_PAGE + SLOTS_PER_PAGE <= u32::MAX + 1,
    ensures
        final(rgba)@ == spec_grid(old(rgba)@, w, h, home_page, SLOTS_PER_PAGE as int),
{
    let ghost orig = rgba@;
    let mut slot: u32 = 0;
    while slot < SLOTS_PER_PAGE
        invariant
            slot <= SLOTS_PER_PAGE,
            w * h * 4 <= u32::MAX,
            home_page * SLOTS_PER_PAGE + SLOTS_PER_PAGE <= u32::MAX + 1,
            rgba@ == spec_grid(orig, w, h, home_page, slot as int),
        decreases SLOTS_PER_PAGE - slot,
    {
        let row = slot / GRID_COLS;
        let col = slot % GRID_COLS;
        let index = layout::global_app_index(home_page, slot);
        let rect = layout::icon_rect(w, row, col);
        let color = palette(index % 8);
        fill_rect(rgba, w, h, rect.x, rect.y, rect.w, rect.h, color);
        let label = [layout::app_letter(index)];
        assert(label@ =~= seq![spec_app_letter(index)]);
        draw_text(rgba, w, rect.x + ICON_SIZE / 2 - 3, rect.y + ICON_SIZE / 2 - 4, &label, [0xFF, 0xFF, 0xFF]);
        slot = slot + 1;
    }
}

/// Page-indicator dots below the grid; the current page is brighter.
pub open spec fn spec_page_dots(buf: Seq<u8>, w: int, h: int, page: int) -> Seq<u8> {
    let x0 = sat_sub(w, 22) / 2;
    let dim = [0x70u8, 0x70u8, 0x80u8, 0xFFu8];
    let b1 = spec_fill(buf, w, h, x0, 580, 6, 6, if page == 0 { white4() } else { dim });
    spec_fill(b1, w, h, x0 + 16, 580, 6, 6, if page == 1 { white4() } else { dim })
}

fn draw_page_dots(rgba: &mut [u8], w: u32, h: u32, home_page: u32)
    requires
        w * h * 4 <= u32::MAX,
    ensures
        final(rgba)@ == spec_page_dots(old(rgba)@, w as int, h as int, home_page as int),
{
    let pages = HOME_PAGES;
    let dot = 6u32;
    let gap = 10u32;
    let total = pages * dot + (pages - 1) * gap;
    let mut x = w.saturating_sub(total) / 2;
    let y = GRID_TOP + GRID_ROWS * (ICON_SIZE + layout::ICON_PAD_Y) + 16;
    let ghost orig = rgba@;
    let mut p: u32 = 0;
    while p < pages
        invariant
            p <= pages,
            pages == HOME_PAGES,
            dot == 6,
            gap == 10,
            y == 580,
            w * h * 4 <= u32::MAX,
            x == sat_sub(w as int, 22) / 2 + 16 * p,
            p == 0 ==> rgba@ == orig,
            p == 1 ==> rgba@ == spec_fill(orig, w as int, h as int, sat_sub(w as int, 22) / 2, 580, 6, 6, if home_page == 0 { white4() } else { [0x70u8, 0x70u8, 0x80u8, 0xFFu8] }),
            p == 2 ==> rgba@ == spec_page_dots(orig, w as int, h as int, home_page as int),
        decreases pages - p,
    {
        let c = if p == home_page { [0xFF, 0xFF, 0xFF, 0xFF] } else { [0x70, 0x70, 0x80, 0xFF] };
        fill_rect(rgba, w, h, x, y, dot, dot, c);
        x = x + dot + gap;
        p = p + 1;
    }
}

/// Which banner message shows in the 30-second cycle starting at `secs`.
pub open spec fn notification_message(idx: int) -> Seq<char> {
    if idx == 0 {
        seq!['H', 'E', 'L', 'L', 'O', ' ', 'W', 'O', 'R', 'L', 'D']
    } else if idx == 1 {
        seq!['N', 'E', 'W', ' ', 'M', 'E', 'S', 'S', 'A', 'G', 'E', ' ', 'F', 'R', 'O', 'M', ' ', 'A']
    } else if idx == 2 {
        seq!['B', 'A', 'T', 'T', 'E', 'R', 'Y', ' ', '1', '0', '0', ' ', 'P', 'E', 'R', 'C', 'E', 'N', 'T']
    } else {
        seq!['M', 'E', 'E', 'T', 'I', 'N', 'G', ' ', 'I', 'N', ' ', '5', ' ', 'M', 'I', 'N']
    }
}

/// Whether the notification banner is up: for 5s of every 30s from t=30s.
pub open spec fn banner_active(us: int) -> bool {
    us / 1_000_000 >= 30 && (us / 1_000_000) % 30 < 5
}

/// The notification banner, shown for 5s of every 30s from t=30s.
pub open spec fn spec_notification(buf: Seq<u8>, w: int, h: int, us: int) -> Seq<u8> {
    let secs = us / 1_000_000;
    if !banner_active(us) {
        buf
    } else {
        let border = [180u8, 180u8, 190u8, 255u8];
        let b1 = spec_fill(buf, w, h, 20, 100, sat_sub(w, 40), 60, [245u8, 245u8, 250u8, 255u8]);
        let b2 = spec_fill(b1, w, h, 20, 100, sat_sub(w, 40), 1, border);
        let b3 = spec_fill(b2, w, h, 20, 159, sat_sub(w, 40), 1, border);
        let b4 = spec_text(b3, w, 32, 110, seq!['N', 'O', 'T', 'I', 'F', 'I', 'C', 'A', 'T', 'I', 'O', 'N'], [0x50u8, 0x50u8, 0x50u8]);
        spec_text(b4, w, 32, 130, notification_message((secs / 30) % 4), [0x14u8, 0x14u8, 0x14u8])
    }
}

fn notification_chars(idx: u64) -> (v: Vec<char>)
    ensures
        v@ == notification_message(idx as int),
{
    let v = match idx {
        0 => vec!['H', 'E', 'L', 'L', 'O', ' ', 'W', 'O', 'R', 'L', 'D'],
        1 => vec!['N', 'E', 'W', ' ', 'M', 'E', 'S', 'S', 'A', 'G', 'E', ' ', 'F', 'R', 'O', 'M', ' ', 'A'],
        2 => vec!['B', 'A', 'T', 'T', 'E', 'R', 'Y', ' ', '1', '0', '0', ' ', 'P', 'E', 'R', 'C', 'E', 'N', 'T'],
        _ => vec!['M', 'E', 'E', 'T', 'I', 'N', 'G', ' ', 'I', 'N', ' ', '5', ' ', 'M', 'I', 'N'],
    };
    assert(v@ =~= notification_message(idx as int));
    v
}

fn maybe_draw_notification(rgba: &mut [u8], w: u32, h: u32, elapsed_us: u64)
    requires
        w * h * 4 <= u32::MAX,
    ensures
        final(rgba)@ == spec_notification(old(rgba)@, w as int, h as int, elapsed_us as int),
{
    let secs = elapsed_us / 1_000_000;
    if secs < 30 {
        return ;
    }
    let phase = secs % 30;
    if !(phase < 5) {
        return ;
    }
    let idx = (secs / 30) % 4;
    let msg = notification_chars(idx);
    let banner_y = 100u32;
    let banner_h = 60u32;
    let banner_w = w.saturating_sub(40);
    fill_rect(rgba, w, h, 20, banner_y, banner_w, banner_h, [245, 245, 250, 255]);
    fill_rect(rgba, w, h, 20, banner_y, banner_w, 1, [180, 180, 190, 255]);
    fill_rect(rgba, w, h, 20, banner_y + banner_h - 1, banner_w, 1, [180, 180, 190, 255]);
    let title = ['N', 'O', 'T', 'I', 'F', 'I', 'C', 'A', 'T', 'I', 'O', 'N'];
    assert(title@ =~= seq!['N', 'O', 'T', 'I', 'F', 'I', 'C', 'A', 'T', 'I', 'O', 'N']);
    draw_text(rgba, w, 32, banner_y + 10, &title, [0x50, 0x50, 0x50]);
    draw_text(rgba, w, 32, banner_y + 30, msg.as_slice(), [0x14, 0x14, 0x14]);
}


/// Stripe colour of content row `y` of an open app with palette colour `base`
/// scrolled by `offset` (mod 96): alternating 48px bands.
pub open spec fn stripe_color(base: [u8; 4], offset: int, y: int) -> [u8; 4] {
    let rel = (y - 88 + offset) % 96;
    if rel / 48 == 0 {
        [(base[0] / 2 + 40) as u8, (base[1] / 2 + 40) as u8, (base[2] / 2 + 40) as u8, 255u8]
    } else {
        [(base[0] / 3 + 20) as u8, (base[1] / 3 + 20) as u8, (base[2] / 3 + 20) as u8, 255u8]
    }
}

/// Opened-app screen: tinted title bar with back chevron and `APP <letter>`,
/// a scrollable striped content band and the home indicator bar.
pub open spec fn spec_app_view(buf: Seq<u8>, w: int, h: int, index: u32, scroll: int) -> Seq<u8> {
    let base = spec_palette((index % 8) as int);
    let title_c = [(base[0] * 2 / 3) as u8, (base[1] * 2 / 3) as u8, (base[2] * 2 / 3) as u8, 255u8];
    let b1 = spec_fill(buf, w, h, 0, 44, w, 44, title_c);
    let b2 = spec_text(b1, w, 14, 60, seq!['<'], white3());
    let b3 = spec_text(b2, w, sat_sub(w, 30) / 2, 60, seq!['A', 'P', 'P', ' ', spec_app_letter(index)], white3());
    let offset = (if scroll > 0 { scroll } else { 0 }) % 96;
    let b4 = paint_rows(b3, w, 88, sat_sub(h, 32), |y: int| stripe_color(base, offset, y));
    let hz = spec_home_indicator_zone(w as u32, h as u32);
    spec_fill(b4, w, h, hz.x as int, hz.y + 14, hz.w as int, 5, [0xE0u8, 0xE0u8, 0xE0u8, 0xFFu8])
}

fn draw_app_view(rgba: &mut [u8], w: u32, h: u32, index: u32, scroll: i32)
    requires
        w * h * 4 <= u32::MAX,
    ensures
        final(rgba)@ == spec_app_view(old(rgba)@, w as int, h as int, index, scroll as int),
{
    let title_h = 44u32;
    let title_top = STATUS_BAR_H;
    let base = palette(index % 8);
    let title_c = [
        (base[0] as u32 * 2 / 3) as u8,
        (base[1] as u32 * 2 / 3) as u8,
        (base[2] as u32 * 2 / 3) as u8,
        255,
    ];
    fill_rect(rgba, w, h, 0, title_top, w, title_h, title_c);
    let bz = layout::back_zone();
    let chevron = ['<'];
    assert(chevron@ =~= seq!['<']);
    draw_text(rgba, w, bz.x + 14, bz.y + 16, &chevron, [0xFF, 0xFF, 0xFF]);
    let title = ['A', 'P', 'P', ' ', layout::app_letter(index)];
    assert(title@ =~= seq!['A', 'P', 'P', ' ', spec_app_letter(index)]);
    let tw = 30u32;
    draw_text(rgba, w, w.saturating_sub(tw) / 2, title_top + 16, &title, [0xFF, 0xFF, 0xFF]);
    let content_top = title_top + title_h;
    let hz = layout::home_indicator_zone(w, h);
    let content_bot = h.saturating_sub(hz.h + 4);
    let stripe_h = 48u32;
    let period = stripe_h * 2;
    let offset = (if scroll > 0 { scroll } else { 0 }) as u32 % period;
    let ghost f = |y: int| stripe_color(base, offset as int, y);
    if content_top < content_bot {
        let mut colors: Vec<[u8; 4]> = Vec::new();
        let mut y = content_top;
        while y < content_bot
            invariant
                content_top == 88,
                content_top <= y <= content_bot,
                content_bot <= u32::MAX - 32,
                period == 96,
                stripe_h == 48,
                offset < 96,
                f == (|r: int| stripe_color(base, offset as int, r)),
                colors@.len() == y - content_top,
                forall|r: int| content_top <= r < y ==> #[trigger] f(r) == colors@[r - content_top],
            decreases content_bot - y,
        {
            let rel = (y - content_top + offset) % period;
            let band = rel / stripe_h;
            let c = if band == 0 {
                [
                    (base[0] / 2).saturating_add(40),
                    (base[1] / 2).saturating_add(40),
                    (base[2] / 2).saturating_add(40),
                    255,
                ]
            } else {
                [
                    (base[0] / 3).saturating_add(20),
                    (base[1] / 3).saturating_add(20),
                    (base[2] / 3).saturating_add(20),
                    255,
                ]
            };
            proof {
                let sc = stripe_color(base, offset as int, y as int);
                assert(sc[0] == c[0] && sc[1] == c[1] && sc[2] == c[2] && sc[3] == c[3]);
                assert(sc =~= c);
            }
            colors.push(c);
            y = y + 1;
        }
        fill_rows(rgba, w, h, content_top, content_bot, &colors, Ghost(f));
    } else {
        proof {
            assert(paint_rows(rgba@, w as int, 88, sat_sub(h as int, 32), f) =~= rgba@);
        }
    }
    fill_rect(rgba, w, h, hz.x, hz.y + hz.h / 2, hz.w, 5, [0xE0, 0xE0, 0xE0, 0xFF]);
}

/// Whether the long-press highlight is showing at time `us`.
pub open spec fn flash_active(snap: StateSnapshot, us: int) -> bool {
    snap.last_input_kind == InputKind::LongPress && us >= snap.last_input_at_us
        && us - snap.last_input_at_us < FLASH_DURATION_US
}

/// The highlight's square fits the coordinate range.
pub open spec fn flash_fits(snap: StateSnapshot) -> bool {
    sat_sub(snap.last_input_x as int, 22) + 46 <= u32::MAX && sat_sub(snap.last_input_y as int, 22)
        + 46 <= u32::MAX
}

/// Hollow white square centred on the long-press point while it fades.
pub open spec fn spec_flash(buf: Seq<u8>, w: int, h: int, snap: StateSnapshot, us: int) -> Seq<u8> {
    if !flash_active(snap, us) {
        buf
    } else {
        let x0 = sat_sub(snap.last_input_x as int, 22);
        let y0 = sat_sub(snap.last_input_y as int, 22);
        let b1 = spec_fill(buf, w, h, x0, y0, 44, 2, white4());
        let b2 = spec_fill(b1, w, h, x0, y0 + 44, 44, 2, white4());
        let b3 = spec_fill(b2, w, h, x0, y0, 2, 44, white4());
        spec_fill(b3, w, h, x0 + 44, y0, 2, 46, white4())
    }
}

fn draw_long_press_flash(rgba: &mut [u8], w: u32, h: u32, snap: &StateSnapshot, now_us: u64)
    requires
        w * h * 4 <= u32::MAX,
        flash_active(*snap, now_us as int) ==> flash_fits(*snap),
    ensures
        final(rgba)@ == spec_flash(old(rgba)@, w as int, h as int, *snap, now_us as int),
{
    if snap.last_input_kind != InputKind::LongPress {
        return ;
    }
    if now_us < snap.last_input_at_us || now_us - snap.last_input_at_us >= FLASH_DURATION_US {
        return ;
    }
    let half = 22u32;
    let x0 = snap.last_input_x.saturating_sub(half);
    let y0 = snap.last_input_y.saturating_sub(half);
    let side = half * 2;
    let c = [0xFF, 0xFF, 0xFF, 0xFF];
    fill_rect(rgba, w, h, x0, y0, side, 2, c);
    fill_rect(rgba, w, h, x0, y0 + side, side, 2, c);
    fill_rect(rgba, w, h, x0, y0, 2, side, c);
    fill_rect(rgba, w, h, x0 + side, y0, 2, side + 2, c);
}

/// The frame-counter label `SYNTH nnnnnn`.
pub open spec fn counter_text(frame_no: u64) -> Seq<char> {
    seq!['S', 'Y', 'N', 'T', 'H', ' '] + zero_pad(dec_digits(frame_no as nat), 6)
}

/// The frame counter, bottom-right, on a translucent black plate blended
/// into the pixels below it (they stay opaque).
pub open spec fn spec_counter(buf: Seq<u8>, w: int, h: int, frame_no: u64) -> Seq<u8> {
    let t = counter_text(frame_no);
    let tw = (t.len() * 6) as int;
    let x = sat_sub(w, tw + 6);
    let y = sat_sub(h, 14);
    let b1 = spec_shade(buf, w, h, sat_sub(x, 2), sat_sub(y, 2), tw + 4, 12);
    spec_text(b1, w, x, y, t, [0x78u8, 0xFFu8, 0x78u8])
}

fn draw_frame_counter(rgba: &mut [u8], w: u32, h: u32, frame_no: u64)
    requires
        w * h * 4 <= u32::MAX,
    ensures
        final(rgba)@ == spec_counter(old(rgba)@, w as int, h as int, frame_no),
{
    let mut text: Vec<char> = vec!['S', 'Y', 'N', 'T', 'H', ' '];
    let digits = decimal_padded(frame_no, 6);
    let ghost head = text@;
    assert(head =~= seq!['S', 'Y', 'N', 'T', 'H', ' ']);
    let mut i: usize = 0;
    while i < digits.len()
        invariant
            i <= digits@.len(),
            text@ == head + digits@.subrange(0, i as int),
        decreases digits@.len() - i,
    {
        text.push(digits[i]);
        proof {
            assert(text@ =~= head + digits@.subrange(0, i + 1));
        }
        i = i + 1;
    }
    proof {
        assert(digits@.subrange(0, digits@.len() as int) =~= digits@);
        assert(text@ =~= counter_text(frame_no));
        lemma_u64_digits(frame_no);
    }
    let tw = text.len() as u32 * GLYPH_ADVANCE;
    let x = w.saturating_sub(tw + 6);
    let y = h.saturating_sub(14);
    shade_rect(rgba, w, h, x.saturating_sub(2), y.saturating_sub(2), tw + 4, 12);
    draw_text(rgba, w, x, y, text.as_slice(), [0x78, 0xFF, 0x78]);
}

/// The whole frame for device size `w` x `h`, state `snap`, `us`
/// microseconds after start and frame number `frame_no`.
pub open spec fn spec_render(w: u32, h: u32, snap: StateSnapshot, us: u64, frame_no: u64) -> Seq<u8> {
    let b0 = Seq::new((w * h * 4) as nat, |k: int| 0u8);
    let b1 = spec_wallpaper(b0, w as int, h as int);
    let b2 = spec_status_bar(b1, w as int, h as int, us as int);
    let b3 = match snap.screen {
        Screen::Home => spec_notification(
            spec_page_dots(spec_grid(b2, w, h, snap.home_page, SLOTS_PER_PAGE as int), w as int, h as int, snap.home_page as int),
            w as int,
            h as int,
            us as int,
        ),
        Screen::App { index } => spec_app_view(b2, w as int, h as int, index, snap.app_scroll as int),
    };
    let b4 = spec_flash(b3, w as int, h as int, snap, us as int);
    spec_counter(b4, w as int, h as int, frame_no)
}

/// A rendered frame.
#[derive(Debug)]
pub struct SyntheticFrame {
    pub width: u32,
    pub height: u32,
    pub rgba: Vec<u8>,
    pub timestamp_us: u64,
}

/// What `render_frame` needs of its inputs for the arithmetic to stay in
/// range: the buffer size fits `u32`; a page's app indices fit `u32`; the
/// highlight square fits.
pub open spec fn render_ok(w: u32, h: u32, snap: StateSnapshot, us: u64) -> bool {
    &&& w * h * 4 <= u32::MAX
    &&& snap.screen is Home ==> snap.home_page * SLOTS_PER_PAGE + SLOTS_PER_PAGE <= u32::MAX + 1
    &&& flash_active(snap, us as int) ==> flash_fits(snap)
}

/// Whether a frame can be rendered (see `render_ok`).
pub fn renderable(w: u32, h: u32, snap: &StateSnapshot, elapsed_us: u64) -> (b: bool)
    ensures
        b == render_ok(w, h, *snap, elapsed_us),
{
    assert((w as int) * (h as int) <= 0xFFFF_FFFF * 0xFFFF_FFFFint) by (nonlinear_arith)
        requires
            w <= 0xFFFF_FFFFu32,
            h <= 0xFFFF_FFFFu32,
    ;
    let area: u128 = (w as u128) * (h as u128);
    if area * 4 > u32::MAX as u128 {
        return false;
    }
    let home = match snap.screen {
        Screen::Home => true,
        _ => false,
    };
    if home && (snap.home_page as u64) * 24 + 24 > u32::MAX as u64 + 1 {
        return false;
    }
    let long_press = match snap.last_input_kind {
        InputKind::LongPress => true,
        _ => false,
    };
    if long_press && elapsed_us >= snap.last_input_at_us && elapsed_us - snap.last_input_at_us < FLASH_DURATION_US {
        let x0: u64 = if snap.last_input_x >= 22 { (snap.last_input_x - 22) as u64 } else { 0 };
        let y0: u64 = if snap.last_input_y >= 22 { (snap.last_input_y - 22) as u64 } else { 0 };
        return x0 + 46 <= u32::MAX as u64 && y0 + 46 <= u32::MAX as u64;
    }
    true
}

/// Render one synthetic frame from the current device state. `elapsed_us`
/// (microseconds since start) drives the clock and the banner; `frame_no`
/// drives the counter.
pub fn render_frame(info: &SyntheticDeviceInfo, snap: &StateSnapshot, elapsed_us: u64, frame_no: u64) -> (frame: SyntheticFrame)
    requires
        render_ok(info.width, info.height, *snap, elapsed_us),
    ensures
        frame.width == info.width,
        frame.height == info.height,
        frame.timestamp_us == elapsed_us,
        frame.rgba@ == spec_render(info.width, info.height, *snap, elapsed_us, frame_no),
{
    let w = info.width;
    let h = info.height;
    let mut rgba: Vec<u8> = vec![0u8; (w * h * 4) as usize];
    proof {
        assert(rgba@ =~= Seq::new((w * h * 4) as nat, |k: int| 0u8));
    }
    draw_wallpaper(rgba.as_mut_slice(), w, h);
    draw_status_bar(rgba.as_mut_slice(), w, h, elapsed_us);
    match snap.screen {
        Screen::Home => {
            draw_app_grid(rgba.as_mut_slice(), w, h, snap.home_page);
            draw_page_dots(rgba.as_mut_slice(), w, h, snap.home_page);
            maybe_draw_notification(rgba.as_mut_slice(), w, h, elapsed_us);
        },
        Screen::App { index } => {
            draw_app_view(rgba.as_mut_slice(), w, h, index, snap.app_scroll);
        },
    }
    draw_long_press_flash(rgba.as_mut_slice(), w, h, snap, elapsed_us);
    draw_frame_counter(rgba.as_mut_slice(), w, h, frame_no);
    SyntheticFrame { width: w, height: h, rgba, timestamp_us: elapsed_us }
}

/// Every pixel of `buf` has an opaque alpha byte.
pub open spec fn opaque(buf: Seq<u8>) -> bool {
    forall|k: int| 0 <= k < buf.len() && k % 4 == 3 ==> #[trigger] buf[k] == 255
}

proof fn lemma_fill_opaque(buf: Seq<u8>, w: int, h: int, x: int, y: int, rw: int, rh: int, c: [u8; 4])
    requires
        opaque(buf),
        c[3] == 255,
    ensures
        opaque(spec_fill(buf, w, h, x, y, rw, rh, c)),
        spec_fill(buf, w, h, x, y, rw, rh, c).len() == buf.len(),
{
    let r = spec_fill(buf, w, h, x, y, rw, rh, c);
    assert forall|k: int| 0 <= k < r.len() && k % 4 == 3 implies #[trigger] r[k] == 255 by {
        assert(c@[3] == c[3]);
    }
}

proof fn lemma_text_opaque(buf: Seq<u8>, w: int, x: int, y: int, t: Seq<char>, c: [u8; 3])
    requires
        opaque(buf),
    ensures
        opaque(spec_text(buf, w, x, y, t, c)),
        spec_text(buf, w, x, y, t, c).len() == buf.len(),
{
    let r = spec_text(buf, w, x, y, t, c);
    assert forall|k: int| 0 <= k < r.len() && k % 4 == 3 implies #[trigger] r[k] == 255 by {
        assert(r[k] == buf[k]);
    }
}

proof fn lemma_rows_opaque(buf: Seq<u8>, w: int, y0: int, y1: int, f: spec_fn(int) -> [u8; 4])
    requires
        opaque(buf),
        forall|y: int| #[trigger] f(y)[3] == 255,
    ensures
        opaque(paint_rows(buf, w, y0, y1, f)),
        paint_rows(buf, w, y0, y1, f).len() == buf.len(),
{
    let r = paint_rows(buf, w, y0, y1, f);
    assert forall|k: int| 0 <= k < r.len() && k % 4 == 3 implies #[trigger] r[k] == 255 by {
        assert(f((k / 4) / w)@[3] == f((k / 4) / w)[3]);
    }
}

proof fn lemma_wallpaper_opaque(buf: Seq<u8>, w: int, h: int)
    requires
        buf.len() == w * h * 4,
        w >= 0,
        h >= 0,
    ensures
        opaque(spec_wallpaper(buf, w, h)),
        spec_wallpaper(buf, w, h).len() == buf.len(),
{
    let r = spec_wallpaper(buf, w, h);
    assert forall|k: int| 0 <= k < r.len() && k % 4 == 3 implies #[trigger] r[k] == 255 by {
        let p = k / 4;
        assert(p * 4 + 3 == k);
        assert(w > 0) by (nonlinear_arith)
            requires
                0 <= k < w * h * 4,
                h >= 0,
        ;
        assert(p < w * h) by (nonlinear_arith)
            requires
                p * 4 + 3 < w * h * 4,
        ;
        vstd::arithmetic::div_mod::lemma_multiply_divide_lt(p, w, h);
        assert(0 <= p / w) by {
            vstd::arithmetic::div_mod::lemma_div_pos_is_pos(p, w);
        }
        assert(wall_color(p / w, h)@[3] == 255u8);
    }
}

proof fn lemma_shade_opaque(buf: Seq<u8>, w: int, h: int, x: int, y: int, rw: int, rh: int)
    requires
        opaque(buf),
    ensures
        opaque(spec_shade(buf, w, h, x, y, rw, rh)),
        spec_shade(buf, w, h, x, y, rw, rh).len() == buf.len(),
{
}

proof fn lemma_grid_opaque(buf: Seq<u8>, w: u32, h: u32, page: u32, n: int)
    requires
        opaque(buf),
    ensures
        opaque(spec_grid(buf, w, h, page, n)),
        spec_grid(buf, w, h, page, n).len() == buf.len(),
    decreases n,
{
    if n > 0 {
        lemma_grid_opaque(buf, w, h, page, n - 1);
        let prev = spec_grid(buf, w, h, page, n - 1);
        let slot = n - 1;
        let index = page * SLOTS_PER_PAGE + slot;
        let r = slot_rect(w, slot as u32);
        let c = spec_palette(index % 8);
        lemma_fill_opaque(prev, w as int, h as int, r.x as int, r.y as int, r.w as int, r.h as int, c);
        let tiled = spec_fill(prev, w as int, h as int, r.x as int, r.y as int, r.w as int, r.h as int, c);
        lemma_text_opaque(tiled, w as int, r.x + 27, r.y + 26, seq![spec_app_letter(index as u32)], white3());
    }
}

/// Every rendered frame is opaque: the wallpaper gives each pixel alpha
/// 255, and nothing drawn over it (the frame-counter plate included, which
/// is blended into the pixels below it) lowers that.
pub proof fn lemma_frame_opaque(w: u32, h: u32, snap: StateSnapshot, us: u64, frame_no: u64)
    requires
        w * h * 4 <= u32::MAX,
    ensures
        opaque(spec_render(w, h, snap, us, frame_no)),
        spec_render(w, h, snap, us, frame_no).len() == w * h * 4,
{
    let wi = w as int;
    let hi = h as int;
    let b0 = Seq::new((w * h * 4) as nat, |k: int| 0u8);
    lemma_wallpaper_opaque(b0, wi, hi);
    let b1 = spec_wallpaper(b0, wi, hi);
    let b2 = spec_status_bar(b1, wi, hi, us as int);
    assert(opaque(b2) && b2.len() == b1.len()) by {
        let c1 = spec_fill(b1, wi, hi, 0, 0, wi, STATUS_BAR_H as int, [0u8, 0u8, 0u8, 255u8]);
        lemma_fill_opaque(b1, wi, hi, 0, 0, wi, STATUS_BAR_H as int, [0u8, 0u8, 0u8, 255u8]);
        let c2 = spec_text(c1, wi, 14, 18, clock_text(us as int / 1_000_000), white3());
        lemma_text_opaque(c1, wi, 14, 18, clock_text(us as int / 1_000_000), white3());
        let c3 = spec_text(c2, wi, 100, 18, seq!['L', 'T', 'E'], [0xC8u8, 0xC8u8, 0xC8u8]);
        lemma_text_opaque(c2, wi, 100, 18, seq!['L', 'T', 'E'], [0xC8u8, 0xC8u8, 0xC8u8]);
        let c4 = spec_text(c3, wi, sat_sub(wi, 52), 18, seq!['1', '0', '0', '%'], white3());
        lemma_text_opaque(c3, wi, sat_sub(wi, 52), 18, seq!['1', '0', '0', '%'], white3());
        let c5 = spec_fill(c4, wi, hi, sat_sub(wi, 22), 19, 16, 9, white4());
        lemma_fill_opaque(c4, wi, hi, sat_sub(wi, 22), 19, 16, 9, white4());
        let c6 = spec_fill(c5, wi, hi, sat_sub(wi, 21), 20, 14, 7, [0x32u8, 0xC8u8, 0x50u8, 0xFFu8]);
        lemma_fill_opaque(c5, wi, hi, sat_sub(wi, 21), 20, 14, 7, [0x32u8, 0xC8u8, 0x50u8, 0xFFu8]);
        lemma_fill_opaque(c6, wi, hi, sat_sub(wi, 6), 21, 2, 5, white4());
    }
    let b3 = match snap.screen {
        Screen::Home => spec_notification(
            spec_page_dots(spec_grid(b2, w, h, snap.home_page, SLOTS_PER_PAGE as int), wi, hi, snap.home_page as int),
            wi,
            hi,
            us as int,
        ),
        Screen::App { index } => spec_app_view(b2, wi, hi, index, snap.app_scroll as int),
    };
    assert(opaque(b3) && b3.len() == b2.len()) by {
        match snap.screen {
            Screen::Home => {
                lemma_grid_opaque(b2, w, h, snap.home_page, SLOTS_PER_PAGE as int);
                let g = spec_grid(b2, w, h, snap.home_page, SLOTS_PER_PAGE as int);
                let page = snap.home_page as int;
                let x0 = sat_sub(wi, 22) / 2;
                let dim = [0x70u8, 0x70u8, 0x80u8, 0xFFu8];
                let c0 = if page == 0 { white4() } else { dim };
                let c1 = if page == 1 { white4() } else { dim };
                lemma_fill_opaque(g, wi, hi, x0, 580, 6, 6, c0);
                let d1 = spec_fill(g, wi, hi, x0, 580, 6, 6, c0);
                lemma_fill_opaque(d1, wi, hi, x0 + 16, 580, 6, 6, c1);
                let d = spec_page_dots(g, wi, hi, page);
                if banner_active(us as int) {
                    let secs = us as int / 1_000_000;
                    let border = [180u8, 180u8, 190u8, 255u8];
                    let e1 = spec_fill(d, wi, hi, 20, 100, sat_sub(wi, 40), 60, [245u8, 245u8, 250u8, 255u8]);
                    lemma_fill_opaque(d, wi, hi, 20, 100, sat_sub(wi, 40), 60, [245u8, 245u8, 250u8, 255u8]);
                    let e2 = spec_fill(e1, wi, hi, 20, 100, sat_sub(wi, 40), 1, border);
                    lemma_fill_opaque(e1, wi, hi, 20, 100, sat_sub(wi, 40), 1, border);
                    let e3 = spec_fill(e2, wi, hi, 20, 159, sat_sub(wi, 40), 1, border);
                    lemma_fill_opaque(e2, wi, hi, 20, 159, sat_sub(wi, 40), 1, border);
                    let title = seq!['N', 'O', 'T', 'I', 'F', 'I', 'C', 'A', 'T', 'I', 'O', 'N'];
                    let e4 = spec_text(e3, wi, 32, 110, title, [0x50u8, 0x50u8, 0x50u8]);
                    lemma_text_opaque(e3, wi, 32, 110, title, [0x50u8, 0x50u8, 0x50u8]);
                    lemma_text_opaque(e4, wi, 32, 130, notification_message((secs / 30) % 4), [0x14u8, 0x14u8, 0x14u8]);
                }
            },
            Screen::App { index } => {
                let base = spec_palette((index % 8) as int);
                let title_c = [(base[0] * 2 / 3) as u8, (base[1] * 2 / 3) as u8, (base[2] * 2 / 3) as u8, 255u8];
                let a1 = spec_fill(b2, wi, hi, 0, 44, wi, 44, title_c);
                lemma_fill_opaque(b2, wi, hi, 0, 44, wi, 44, title_c);
                let a2 = spec_text(a1, wi, 14, 60, seq!['<'], white3());
                lemma_text_opaque(a1, wi, 14, 60, seq!['<'], white3());
                let a3 = spec_text(a2, wi, sat_sub(wi, 30) / 2, 60, seq!['A', 'P', 'P', ' ', spec_app_letter(index)], white3());
                lemma_text_opaque(a2, wi, sat_sub(wi, 30) / 2, 60, seq!['A', 'P', 'P', ' ', spec_app_letter(index)], white3());
                let scroll = snap.app_scroll as int;
                let offset = (if scroll > 0 { scroll } else { 0 }) % 96;
                let f = |y: int| stripe_color(base, offset, y);
                lemma_rows_opaque(a3, wi, 88, sat_sub(hi, 32), f);
                let a4 = paint_rows(a3, wi, 88, sat_sub(hi, 32), f);
                let hz = spec_home_indicator_zone(w, h);
                lemma_fill_opaque(a4, wi, hi, hz.x as int, hz.y + 14, hz.w as int, 5, [0xE0u8, 0xE0u8, 0xE0u8, 0xFFu8]);
            },
        }
    }
    let b4 = spec_flash(b3, wi, hi, snap, us as int);
    assert(opaque(b4) && b4.len() == b3.len()) by {
        if flash_active(snap, us as int) {
            let x0 = sat_sub(snap.last_input_x as int, 22);
            let y0 = sat_sub(snap.last_input_y as int, 22);
            lemma_fill_opaque(b3, wi, hi, x0, y0, 44, 2, white4());
            let f1 = spec_fill(b3, wi, hi, x0, y0, 44, 2, white4());
            lemma_fill_opaque(f1, wi, hi, x0, y0 + 44, 44, 2, white4());
            let f2 = spec_fill(f1, wi, hi, x0, y0 + 44, 44, 2, white4());
            lemma_fill_opaque(f2, wi, hi, x0, y0, 2, 44, white4());
            let f3 = spec_fill(f2, wi, hi, x0, y0, 2, 44, white4());
            lemma_fill_opaque(f3, wi, hi, x0 + 44, y0, 2, 46, white4());
        }
    }
    let t = counter_text(frame_no);
    let tw = (t.len() * 6) as int;
    let x = sat_sub(wi, tw + 6);
    let y = sat_sub(hi, 14);
    lemma_shade_opaque(b4, wi, hi, sat_sub(x, 2), sat_sub(y, 2), tw + 4, 12);
    let s1 = spec_shade(b4, wi, hi, sat_sub(x, 2), sat_sub(y, 2), tw + 4, 12);
    lemma_text_opaque(s1, wi, x, y, t, [0x78u8, 0xFFu8, 0x78u8]);
}

} // verus!
