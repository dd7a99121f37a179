//! Minimal 5x7 bitmap font and the text painter built on it.
//!
//! A glyph is 7 rows of 5 bits (most significant of the low five first).
//! Text advances 6px per glyph (5px glyph + 1px gap). Painting sets the RGB
//! bytes of each lit pixel whose three colour bytes lie inside the buffer;
//! pixels are addressed as `y * width + x` with no clipping at the right edge.
use vstd::prelude::*;

verus! {

/// Rows of the glyph for `ch`; characters the font lacks get a box.
pub open spec fn spec_char_bitmap(ch: char) -> Seq<u8> {
    match ch {
        '0' => seq![0x0Eu8, 0x11u8, 0x13u8, 0x15u8, 0x19u8, 0x11u8, 0x0Eu8],
        '1' => seq![0x04u8, 0x0Cu8, 0x04u8, 0x04u8, 0x04u8, 0x04u8, 0x0Eu8],
        '2' => seq![0x0Eu8, 0x11u8, 0x01u8, 0x06u8, 0x08u8, 0x10u8, 0x1Fu8],
        '3' => seq![0x0Eu8, 0x11u8, 0x01u8, 0x06u8, 0x01u8, 0x11u8, 0x0Eu8],
        '4' => seq![0x02u8, 0x06u8, 0x0Au8, 0x12u8, 0x1Fu8, 0x02u8, 0x02u8],
        '5' => seq![0x1Fu8, 0x10u8, 0x1Eu8, 0x01u8, 0x01u8, 0x11u8, 0x0Eu8],
        '6' => seq![0x06u8, 0x08u8, 0x10u8, 0x1Eu8, 0x11u8, 0x11u8, 0x0Eu8],
        '7' => seq![0x1Fu8, 0x01u8, 0x02u8, 0x04u8, 0x08u8, 0x08u8, 0x08u8],
        '8' => seq![0x0Eu8, 0x11u8, 0x11u8, 0x0Eu8, 0x11u8, 0x11u8, 0x0Eu8],
        '9' => seq![0x0Eu8, 0x11u8, 0x11u8, 0x0Fu8, 0x01u8, 0x02u8, 0x0Cu8],
        'F' => seq![0x1Fu8, 0x10u8, 0x10u8, 0x1Eu8, 0x10u8, 0x10u8, 0x10u8],
        'P' => seq![0x1Eu8, 0x11u8, 0x11u8, 0x1Eu8, 0x10u8, 0x10u8, 0x10u8],
        'S' => seq![0x0Eu8, 0x11u8, 0x10u8, 0x0Eu8, 0x01u8, 0x11u8, 0x0Eu8],
        'k' => seq![0x10u8, 0x12u8, 0x14u8, 0x18u8, 0x14u8, 0x12u8, 0x11u8],
        'b' => seq![0x10u8, 0x10u8, 0x1Eu8, 0x11u8, 0x11u8, 0x11u8, 0x1Eu8],
        'p' => seq![0x00u8, 0x1Eu8, 0x11u8, 0x11u8, 0x1Eu8, 0x10u8, 0x10u8],
        's' => seq![0x00u8, 0x0Fu8, 0x10u8, 0x0Eu8, 0x01u8, 0x1Eu8, 0x00u8],
        'm' => seq![0x00u8, 0x1Au8, 0x15u8, 0x15u8, 0x11u8, 0x11u8, 0x11u8],
        'x' => seq![0x00u8, 0x11u8, 0x0Au8, 0x04u8, 0x0Au8, 0x11u8, 0x00u8],
        'f' => seq![0x06u8, 0x08u8, 0x1Cu8, 0x08u8, 0x08u8, 0x08u8, 0x08u8],
        'r' => seq![0x00u8, 0x16u8, 0x19u8, 0x10u8, 0x10u8, 0x10u8, 0x10u8],
        'a' => seq![0x00u8, 0x0Eu8, 0x01u8, 0x0Fu8, 0x11u8, 0x0Fu8, 0x00u8],
        'e' => seq![0x00u8, 0x0Eu8, 0x11u8, 0x1Fu8, 0x10u8, 0x0Eu8, 0x00u8],
        '|' => seq![0x04u8, 0x04u8, 0x04u8, 0x00u8, 0x04u8, 0x04u8, 0x04u8],
        ' ' => seq![0x00u8, 0x00u8, 0x00u8, 0x00u8, 0x00u8, 0x00u8, 0x00u8],
        '.' => seq![0x00u8, 0x00u8, 0x00u8, 0x00u8, 0x00u8, 0x00u8, 0x04u8],
        _ => seq![0x1Fu8, 0x11u8, 0x11u8, 0x11u8, 0x11u8, 0x11u8, 0x1Fu8],
    }
}

/// Minimal 5x7 bitmap font for digits, a few letters and common symbols.
pub fn char_bitmap(ch: char) -> (r: [u8; 7])
    ensures
        r@ == spec_char_bitmap(ch),
{
    let r = match ch {
        '0' => [0x0E, 0x11, 0x13, 0x15, 0x19, 0x11, 0x0E],
        '1' => [0x04, 0x0C, 0x04, 0x04, 0x04, 0x04, 0x0E],
        '2' => [0x0E, 0x11, 0x01, 0x06, 0x08, 0x10, 0x1F],
        '3' => [0x0E, 0x11, 0x01, 0x06, 0x01, 0x11, 0x0E],
        '4' => [0x02, 0x06, 0x0A, 0x12, 0x1F, 0x02, 0x02],
        '5' => [0x1F, 0x10, 0x1E, 0x01, 0x01, 0x11, 0x0E],
        '6' => [0x06, 0x08, 0x10, 0x1E, 0x11, 0x11, 0x0E],
        '7' => [0x1F, 0x01, 0x02, 0x04, 0x08, 0x08, 0x08],
        '8' => [0x0E, 0x11, 0x11, 0x0E, 0x11, 0x11, 0x0E],
        '9' => [0x0E, 0x11, 0x11, 0x0F, 0x01, 0x02, 0x0C],
        'F' => [0x1F, 0x10, 0x10, 0x1E, 0x10, 0x10, 0x10],
        'P' => [0x1E, 0x11, 0x11, 0x1E, 0x10, 0x10, 0x10],
        'S' => [0x0E, 0x11, 0x10, 0x0E, 0x01, 0x11, 0x0E],
        'k' => [0x10, 0x12, 0x14, 0x18, 0x14, 0x12, 0x11],
        'b' => [0x10, 0x10, 0x1E, 0x11, 0x11, 0x11, 0x1E],
        'p' => [0x00, 0x1E, 0x11, 0x11, 0x1E, 0x10, 0x10],
        's' => [0x00, 0x0F, 0x10, 0x0E, 0x01, 0x1E, 0x00],
        'm' => [0x00, 0x1A, 0x15, 0x15, 0x11, 0x11, 0x11],
        'x' => [0x00, 0x11, 0x0A, 0x04, 0x0A, 0x11, 0x00],
        'f' => [0x06, 0x08, 0x1C, 0x08, 0x08, 0x08, 0x08],
        'r' => [0x00, 0x16, 0x19, 0x10, 0x10, 0x10, 0x10],
        'a' => [0x00, 0x0E, 0x01, 0x0F, 0x11, 0x0F, 0x00],
        'e' => [0x00, 0x0E, 0x11, 0x1F, 0x10, 0x0E, 0x00],
        '|' => [0x04, 0x04, 0x04, 0x00, 0x04, 0x04, 0x04],
        ' ' => [0x00, 0x00, 0x00, 0x00, 0x00, 0x00, 0x00],
        '.' => [0x00, 0x00, 0x00, 0x00, 0x00, 0x00, 0x04],
        _ => [0x1F, 0x11, 0x11, 0x11, 0x11, 0x11, 0x1F],
    };
    assert(r@ =~= spec_char_bitmap(ch));
    r
}

/// Whether the glyph for `ch` lights column `col` of row `row`.
pub open spec fn glyph_bit(ch: char, row: int, col: int) -> bool {
    0 <= row < 7 && 0 <= col < 5 && (spec_char_bitmap(ch)[row] >> ((4 - col) as u8)) & 1u8 == 1u8
}

/// The pixel lit by step `e` of painting `t` at `(x, y)`: step `e` visits
/// glyph `e / 35`, row `(e % 35) / 5`, column `e % 5`.
pub open spec fn glyph_pixel(w: int, x: int, y: int, t: Seq<char>, e: int) -> Option<int> {
    let i = e / 35;
    let row = (e % 35) / 5;
    let col = e % 5;
    if 0 <= e && i < t.len() && glyph_bit(t[i], row, col) {
        Some((y + row) * w + x + 6 * i + col)
    } else {
        None
    }
}

/// Pixels lit by the first `n` steps of painting `t` at `(x, y)`.
pub open spec fn text_lit(w: int, x: int, y: int, t: Seq<char>, n: int) -> spec_fn(int) -> bool {
    |p: int| exists|e: int| 0 <= e < n && #[trigger] glyph_pixel(w, x, y, t, e) == Some(p)
}

/// `buf` with the RGB bytes of every pixel in `lit` set to `c`, for each
/// pixel whose three colour bytes lie inside the buffer.
pub open spec fn paint_rgb(buf: Seq<u8>, lit: spec_fn(int) -> bool, c: [u8; 3]) -> Seq<u8> {
    Seq::new(
        buf.len(),
        |k: int|
            if k % 4 < 3 && (k / 4) * 4 + 2 < buf.len() && lit(k / 4) {
                c@[k % 4]
            } else {
                buf[k]
            },
    )
}

/// `buf` with text `t` painted in colour `c` at `(x, y)` on a `w`-wide canvas.
pub open spec fn spec_text(buf: Seq<u8>, w: int, x: int, y: int, t: Seq<char>, c: [u8; 3]) -> Seq<u8> {
    paint_rgb(buf, text_lit(w, x, y, t, (t.len() * 35) as int), c)
}

proof fn lemma_step_decode(e: int, n: int)
    requires
        0 <= e < n * 35,
    ensures
        e / 35 < n,
        0 <= (e % 35) / 5 < 7,
        0 <= e % 5 < 5,
        e % 35 == ((e % 35) / 5) * 5 + e % 5,
        e == (e / 35) * 35 + e % 35,
{
}

/// Draw `text` with the bitmap font at `(x, y)` in colour `color`.
pub fn draw_text(rgba: &mut [u8], w: u32, x: u32, y: u32, text: &[char], color: [u8; 3])
    requires
        text@.len() * 35 <= u64::MAX,
    ensures
        final(rgba)@ == spec_text(old(rgba)@, w as int, x as int, y as int, text@, color),
{
    let ghost t = text@;
    let ghost orig = rgba@;
    let total: u64 = text.len() as u64 * 35;
    let mut e: u64 = 0;
    proof {
        assert(paint_rgb(orig, text_lit(w as int, x as int, y as int, t, 0), color) =~= orig);
    }
    while e < total
        invariant
            t == text@,
            total == t.len() * 35,
            e <= total,
            rgba@.len() == orig.len(),
            rgba@ == paint_rgb(orig, text_lit(w as int, x as int, y as int, t, e as int), color),
        decreases total - e,
    {
        proof {
            lemma_step_decode(e as int, t.len() as int);
        }
        let i = (e / 35) as usize;
        let row = (e % 35) / 5;
        let col = (e % 5);
        let bits = char_bitmap(text[i]);
        let lit = (bits[row as usize] >> ((4 - col) as u8)) & 1u8 == 1u8;
        let ghost before = rgba@;
        assert(lit == glyph_bit(t[i as int], row as int, col as int));
        if lit {
            let px: u128 = x as u128 + 6 * (i as u128) + col as u128;
            let py: u128 = y as u128 + row as u128;
            assert(py * (w as u128) <= 0x1_0000_0008 * 0x1_0000_0000) by (nonlinear_arith)
                requires
                    py <= 0x1_0000_0008,
                    w <= 0xFFFF_FFFF,
            ;
            let idx: u128 = (py * w as u128 + px) * 4;
            if idx + 2 < rgba.len() as u128 {
                let k = idx as usize;
                rgba[k] = color[0];
                rgba[k + 1] = color[1];
                rgba[k + 2] = color[2];
            }
            proof {
                let p = py * w + px;
                assert(glyph_pixel(w as int, x as int, y as int, t, e as int) == Some(p as int));
                assert forall|q: int| #[trigger] text_lit(w as int, x as int, y as int, t, e + 1)(q)
                    == (text_lit(w as int, x as int, y as int, t, e as int)(q) || q == p) by {
                    if text_lit(w as int, x as int, y as int, t, e + 1)(q) {
                        let e2 = choose|e2: int| 0 <= e2 < e + 1 && #[trigger] glyph_pixel(w as int, x as int, y as int, t, e2) == Some(q);
                        if e2 < e {
                        }
                    }
                    if q == p {
                        assert(glyph_pixel(w as int, x as int, y as int, t, e as int) == Some(q));
                    }
                }
                assert(rgba@ =~= paint_rgb(orig, text_lit(w as int, x as int, y as int, t, e + 1), color));
            }
        } else {
            proof {
                assert(glyph_pixel(w as int, x as int, y as int, t, e as int) is None);
                assert forall|q: int| #[trigger] text_lit(w as int, x as int, y as int, t, e + 1)(q)
                    == text_lit(w as int, x as int, y as int, t, e as int)(q) by {
                    if text_lit(w as int, x as int, y as int, t, e + 1)(q) {
                        let e2 = choose|e2: int| 0 <= e2 < e + 1 && #[trigger] glyph_pixel(w as int, x as int, y as int, t, e2) == Some(q);
                    }
                }
                assert(rgba@ =~= paint_rgb(orig, text_lit(w as int, x as int, y as int, t, e + 1), color));
            }
        }
        e = e + 1;
    }
}

/// Cyan, the colour of the stats overlay text.
pub open spec fn overlay_cyan() -> [u8; 3] {
    [0x00u8, 0xD4u8, 0xFFu8]
}

/// Draw a single character in the overlay's cyan.
pub fn draw_char(rgba: &mut [u8], width: u32, x: u32, y: u32, ch: char)
    ensures
        final(rgba)@ == spec_text(old(rgba)@, width as int, x as int, y as int, seq![ch], overlay_cyan()),
{
    let one = [ch];
    assert(one@ =~= seq![ch]);
    draw_text(rgba, width, x, y, &one, [0x00, 0xD4, 0xFF]);
}

/// `buf` with the colour bytes of the first `pixels` pixels dimmed to 40%,
/// for each pixel whose four bytes lie inside the buffer.
pub open spec fn dimmed(buf: Seq<u8>, pixels: int) -> Seq<u8> {
    Seq::new(
        buf.len(),
        |k: int|
            if k / 4 < pixels && k % 4 < 3 && (k / 4) * 4 + 3 < buf.len() {
                (buf[k] * 40 / 100) as u8
            } else {
                buf[k]
            },
    )
}

/// Rows of the overlay bar on a frame `height` pixels tall.
pub open spec fn bar_rows(height: u32) -> int {
    if height < 24 {
        height as int
    } else {
        24
    }
}

/// How many characters of a text of `len` characters fit on the bar of a
/// `width`-wide frame: character `i` is drawn at `x = 8 + 6i` while
/// `x + 5 < width`.
pub open spec fn shown_chars(len: int, width: int) -> int {
    let fit = if width > 13 {
        (width - 13 + 5) / 6
    } else {
        0
    };
    if len < fit {
        len
    } else {
        fit
    }
}

/// The stats overlay: the top 24 rows (or the whole frame, if shorter)
/// dimmed to 40%, then as much of `text` as fits drawn in cyan from
/// `(8, 8)`.
pub fn draw_stats_bar(rgba: &mut [u8], width: u32, height: u32, text: &[char])
    requires
        bar_rows(height) * width * 4 <= u32::MAX,
        text@.len() * 35 <= u64::MAX,
    ensures
        final(rgba)@ == spec_text(
            dimmed(old(rgba)@, bar_rows(height) * width),
            width as int,
            8,
            8,
            text@.take(shown_chars(text@.len() as int, width as int)),
            overlay_cyan(),
        ),
{
    let rows: u32 = if height < 24 { height } else { 24 };
    assert(rows as int * width as int <= 0xFFFF_FFFF) by (nonlinear_arith)
        requires
            rows as int * width as int * 4 <= 0xFFFF_FFFF,
    ;
    let pixels: u32 = rows * width;
    let ghost orig = rgba@;
    let mut p: u32 = 0;
    proof {
        assert(dimmed(orig, 0) =~= orig);
    }
    while p < pixels
        invariant
            p <= pixels,
            pixels as int * 4 <= u32::MAX,
            rgba@.len() == orig.len(),
            rgba@ == dimmed(orig, p as int),
        decreases pixels - p,
    {
        let idx: usize = (p as usize) * 4;
        let ghost before = rgba@;
        if idx + 3 < rgba.len() {
            rgba[idx] = (rgba[idx] as u16 * 40 / 100) as u8;
            rgba[idx + 1] = (rgba[idx + 1] as u16 * 40 / 100) as u8;
            rgba[idx + 2] = (rgba[idx + 2] as u16 * 40 / 100) as u8;
        }
        proof {
            assert forall|k: int| 0 <= k < orig.len() implies #[trigger] rgba@[k] == dimmed(orig, p + 1)[k] by {
                if k / 4 == p as int {
                    assert(k == idx + k % 4);
                } else {
                    assert(k < idx || k >= idx + 4);
                }
            }
            assert(rgba@ =~= dimmed(orig, p + 1));
        }
        p = p + 1;
    }
    let fit: u32 = if width > 13 { (width - 13 + 5) / 6 } else { 0 };
    let n: usize = if text.len() < fit as usize { text.len() } else { fit as usize };
    let shown = vstd::slice::slice_subrange(text, 0, n);
    proof {
        assert(shown@ =~= text@.take(shown_chars(text@.len() as int, width as int)));
    }
    draw_text(rgba, width, 8, 8, shown, [0x00, 0xD4, 0xFF]);
}

} // verus!
