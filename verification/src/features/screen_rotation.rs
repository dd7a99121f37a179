//! Orientation tracking from frame dimensions, mirror flips of RGBA frames,
//! and named crop-region presets.
use vstd::prelude::*;
use crate::text::str_eq;
use vstd::arithmetic::div_mod::{
    lemma_div_pos_is_pos, lemma_fundamental_div_mod, lemma_fundamental_div_mod_converse,
    lemma_mod_pos_bound,
};

verus! {

/// Device orientation as inferred from frame dimensions.
#[derive(Clone, Copy, Debug, PartialEq, Eq, Structural)]
pub enum Orientation {
    Portrait,
    Landscape,
    PortraitUpsideDown,
    LandscapeRight,
}

/// Orientation implied by a frame's size: landscape when wider than tall.
pub open spec fn orientation_of(width: u32, height: u32) -> Orientation {
    if width > height {
        Orientation::Landscape
    } else {
        Orientation::Portrait
    }
}

/// One update of a detector in orientation `cur` that last saw a `last`
/// frame, with a `w` x `h` frame: the orientation after it, and what the
/// update reports. A frame of the last size changes nothing; another size
/// sets the orientation from that size, reported when it changed.
pub open spec fn rotation_step(cur: Orientation, last: (u32, u32), w: u32, h: u32) -> (Orientation, Option<Orientation>) {
    if last == (w, h) {
        (cur, None)
    } else if orientation_of(w, h) != cur {
        (orientation_of(w, h), Some(orientation_of(w, h)))
    } else {
        (cur, None)
    }
}

/// Orientation and last frame size of a new detector after updates with
/// the frame sizes `sizes`, in order.
pub open spec fn orientation_after(sizes: Seq<(u32, u32)>) -> (Orientation, (u32, u32))
    decreases sizes.len(),
{
    if sizes.len() == 0 {
        (Orientation::Portrait, (0u32, 0u32))
    } else {
        let prev = orientation_after(sizes.drop_last());
        let (w, h) = sizes.last();
        (rotation_step(prev.0, prev.1, w, h).0, (w, h))
    }
}

/// Whatever frames a new detector has seen, its orientation is the one
/// implied by the last frame's size (portrait before any frame), so it is
/// never upside down or landscape-right.
pub proof fn lemma_orientation_follows_last_frame(sizes: Seq<(u32, u32)>)
    ensures
        orientation_after(sizes).0 == (if sizes.len() == 0 {
            Orientation::Portrait
        } else {
            orientation_of(sizes.last().0, sizes.last().1)
        }),
        orientation_after(sizes).0 != Orientation::PortraitUpsideDown,
        orientation_after(sizes).0 != Orientation::LandscapeRight,
    decreases sizes.len(),
{
    if sizes.len() > 0 {
        let prev = sizes.drop_last();
        lemma_orientation_follows_last_frame(prev);
        if prev.len() > 0 {
            assert(orientation_after(prev).1 == prev.last());
        }
    }
}

/// An update reports an orientation exactly when it changed the current
/// one, and what it reports is the new current orientation.
pub proof fn lemma_update_reports_changes(cur: Orientation, last: (u32, u32), w: u32, h: u32)
    ensures
        rotation_step(cur, last, w, h).1 is Some <==> rotation_step(cur, last, w, h).0 != cur,
        rotation_step(cur, last, w, h).1 matches Some(o) ==> o == rotation_step(cur, last, w, h).0,
{
}

/// A frame wider than tall is landscape; any other (square included) is
/// portrait; no size reads as upside down or landscape-right.
pub proof fn lemma_orientation_by_dimensions(w: u32, h: u32)
    ensures
        (orientation_of(w, h) == Orientation::Landscape) == (w > h),
        (orientation_of(w, h) == Orientation::Portrait) == (w <= h),
{
}

/// After any frames, a new detector is landscape exactly when the last
/// frame was wider than tall (portrait before any frame), and an update
/// reports a change exactly when the orientation flips between landscape
/// and portrait.
pub proof fn lemma_detector_tracks_width_over_height(sizes: Seq<(u32, u32)>, w: u32, h: u32)
    ensures
        (orientation_after(sizes.push((w, h))).0 == Orientation::Landscape) == (w > h),
        (orientation_after(sizes.push((w, h))).0 == Orientation::Portrait) == (w <= h),
        rotation_step(orientation_after(sizes).0, orientation_after(sizes).1, w, h).1 is Some <==> ((
        orientation_after(sizes).0 == Orientation::Landscape) != (w > h)),
{
    lemma_orientation_follows_last_frame(sizes.push((w, h)));
    lemma_orientation_follows_last_frame(sizes);
    assert(sizes.push((w, h)).last() == (w, h));
    assert(sizes.push((w, h)).drop_last() =~= sizes);
    if sizes.len() > 0 {
        assert(orientation_after(sizes).1 == sizes.last());
    }
}

/// Detects orientation changes from the stream's frame dimensions.
pub struct RotationDetector {
    current: Orientation,
    last_width: u32,
    last_height: u32,
}

impl RotationDetector {
    /// A detector's orientation is always the one its last frame's size
    /// implies (portrait for the 0 x 0 it starts with).
    #[verifier::type_invariant]
    spec fn tracks_last_frame(self) -> bool {
        self.current == orientation_of(self.last_width, self.last_height)
    }

    /// The current orientation.
    pub closed spec fn spec_current(&self) -> Orientation {
        self.current
    }

    /// The dimensions of the last frame seen.
    pub closed spec fn spec_last(&self) -> (u32, u32) {
        (self.last_width, self.last_height)
    }

    /// Starts in portrait, having seen no frame (0 x 0).
    pub fn new() -> (d: Self)
        ensures
            d.spec_current() == Orientation::Portrait,
            d.spec_last() == (0u32, 0u32),
            d.spec_current() == orientation_of(d.spec_last().0, d.spec_last().1),
    {
        RotationDetector { current: Orientation::Portrait, last_width: 0, last_height: 0 }
    }

    /// Update with new frame dimensions. Returns the new orientation when it
    /// changed; same-size frames are ignored.
    pub fn update(&mut self, width: u32, height: u32) -> (r: Option<Orientation>)
        ensures
            final(self).spec_last() == (width, height),
            final(self).spec_current() == orientation_of(width, height),
            final(self).spec_current() == (if width > height { Orientation::Landscape } else { Orientation::Portrait }),
            (final(self).spec_current(), r) == rotation_step(old(self).spec_current(), old(self).spec_last(), width, height),
            old(self).spec_last() == (width, height) ==> r is None && final(self).spec_current()
                == old(self).spec_current(),
            old(self).spec_last() != (width, height) ==> {
                &&& final(self).spec_current() == orientation_of(width, height)
                &&& r == if orientation_of(width, height) != old(self).spec_current() {
                    Some(orientation_of(width, height))
                } else {
                    None
                }
            },
    {
        proof {
            use_type_invariant(&*self);
        }
        if width == self.last_width && height == self.last_height {
            return None;
        }
        let new = if width > height { Orientation::Landscape } else { Orientation::Portrait };
        let changed = new != self.current;
        *self = RotationDetector { current: new, last_width: width, last_height: height };
        if changed {
            Some(new)
        } else {
            None
        }
    }

    /// The current orientation.
    pub fn current(&self) -> (o: Orientation)
        ensures
            o == self.spec_current(),
            o == orientation_of(self.spec_last().0, self.spec_last().1),
            o != Orientation::PortraitUpsideDown && o != Orientation::LandscapeRight,
    {
        proof {
            use_type_invariant(self);
        }
        self.current
    }
}

/// Pixel row of byte `k` on a canvas `w` pixels wide (4 bytes per pixel).
pub open spec fn byte_row(k: int, w: int) -> int {
    (k / 4) / w
}

/// Pixel column of byte `k` on a canvas `w` pixels wide.
pub open spec fn byte_col(k: int, w: int) -> int {
    (k / 4) % w
}

/// The byte that mirroring each row left to right brings to position `k`.
pub open spec fn mirror_h(k: int, w: int) -> int {
    (byte_row(k, w) * w + (w - 1 - byte_col(k, w))) * 4 + k % 4
}

/// The byte that mirroring the `h` rows top to bottom brings to position `k`.
pub open spec fn mirror_v(k: int, w: int, h: int) -> int {
    ((h - 1 - byte_row(k, w)) * w + byte_col(k, w)) * 4 + k % 4
}

/// `buf` with each of the first `h` rows of a `w`-wide frame mirrored left
/// to right; bytes past the frame are kept.
pub open spec fn flipped_h(buf: Seq<u8>, w: int, h: int) -> Seq<u8> {
    Seq::new(buf.len(), |k: int| if k < w * h * 4 { buf[mirror_h(k, w)] } else { buf[k] })
}

/// `buf` with the first `h` rows of a `w`-wide frame in reverse order;
/// bytes past the frame are kept.
pub open spec fn flipped_v(buf: Seq<u8>, w: int, h: int) -> Seq<u8> {
    Seq::new(buf.len(), |k: int| if k < w * h * 4 { buf[mirror_v(k, w, h)] } else { buf[k] })
}

/// Row, column and channel of byte `k`.
pub(crate) proof fn lemma_byte_coords(k: int, w: int)
    requires
        0 <= k,
        0 < w,
    ensures
        k == (byte_row(k, w) * w + byte_col(k, w)) * 4 + k % 4,
        0 <= byte_col(k, w) < w,
        0 <= byte_row(k, w),
        0 <= k % 4 < 4,
{
    let q = k / 4;
    lemma_fundamental_div_mod(k, 4);
    lemma_fundamental_div_mod(q, w);
    lemma_mod_pos_bound(q, w);
    lemma_div_pos_is_pos(q, w);
    let r = q / w;
    let c = q % w;
    assert(q == r * w + c) by (nonlinear_arith)
        requires
            q == w * (q / w) + q % w,
            r == q / w,
            c == q % w,
    ;
}

/// The byte of channel `c` of pixel `(x, y)` lies in row `y`, column `x`.
pub(crate) proof fn lemma_byte_at(y: int, x: int, c: int, w: int)
    requires
        0 <= y,
        0 <= x < w,
        0 <= c < 4,
    ensures
        ((y * w + x) * 4 + c) / 4 == y * w + x,
        ((y * w + x) * 4 + c) % 4 == c,
        byte_row((y * w + x) * 4 + c, w) == y,
        byte_col((y * w + x) * 4 + c, w) == x,
{
    lemma_fundamental_div_mod_converse((y * w + x) * 4 + c, 4, y * w + x, c);
    lemma_fundamental_div_mod_converse(y * w + x, w, y, x);
}

/// A byte of row `y` lies in the first `h` rows exactly when `y < h`.
pub(crate) proof fn lemma_row_bound(y: int, x: int, c: int, w: int, h: int)
    requires
        0 <= y,
        0 <= x < w,
        0 <= c < 4,
        0 <= h,
    ensures
        ((y * w + x) * 4 + c < w * h * 4) == (y < h),
{
    if y < h {
        assert(y * w + w <= h * w) by (nonlinear_arith)
            requires
                y < h,
                0 < w,
        ;
        assert(w * h == h * w) by (nonlinear_arith);
    } else {
        assert(y * w >= h * w) by (nonlinear_arith)
            requires
                y >= h,
                0 < w,
        ;
        assert(w * h == h * w) by (nonlinear_arith);
    }
}

/// A nonempty frame region has a positive width.
pub(crate) proof fn lemma_frame_nonempty(k: int, w: int, h: int)
    requires
        0 <= k < w * h * 4,
        0 <= w,
        0 <= h,
    ensures
        0 < w,
        0 < h,
{
    if w == 0 || h == 0 {
        assert(w * h * 4 == 0) by (nonlinear_arith)
            requires
                w == 0 || h == 0,
        ;
    }
}

/// Mirroring left to right twice gives the frame back.
pub proof fn lemma_flip_h_involution(buf: Seq<u8>, w: int, h: int)
    requires
        0 <= w,
        0 <= h,
        w < 2 || w * h * 4 <= buf.len(),
    ensures
        flipped_h(flipped_h(buf, w, h), w, h) == buf,
{
    let f = flipped_h(buf, w, h);
    assert forall|k: int| 0 <= k < buf.len() implies #[trigger] flipped_h(f, w, h)[k] == buf[k] by {
        if k < w * h * 4 {
            lemma_frame_nonempty(k, w, h);
            lemma_byte_coords(k, w);
            let y = byte_row(k, w);
            let x = byte_col(k, w);
            let c = k % 4;
            lemma_row_bound(y, x, c, w, h);
            lemma_byte_at(y, w - 1 - x, c, w);
            lemma_row_bound(y, w - 1 - x, c, w, h);
            let m = mirror_h(k, w);
            assert(m == (y * w + (w - 1 - x)) * 4 + c);
            assert(mirror_h(m, w) == k);
            assert(f[m] == buf[k]);
        }
    }
    assert(flipped_h(f, w, h) =~= buf);
}

/// Mirroring top to bottom twice gives the frame back.
pub proof fn lemma_flip_v_involution(buf: Seq<u8>, w: int, h: int)
    requires
        0 <= w,
        0 <= h,
        h < 2 || w * h * 4 <= buf.len(),
    ensures
        flipped_v(flipped_v(buf, w, h), w, h) == buf,
{
    let f = flipped_v(buf, w, h);
    assert forall|k: int| 0 <= k < buf.len() implies #[trigger] flipped_v(f, w, h)[k] == buf[k] by {
        if k < w * h * 4 {
            lemma_frame_nonempty(k, w, h);
            lemma_byte_coords(k, w);
            let y = byte_row(k, w);
            let x = byte_col(k, w);
            let c = k % 4;
            lemma_row_bound(y, x, c, w, h);
            lemma_byte_at(h - 1 - y, x, c, w);
            lemma_row_bound(h - 1 - y, x, c, w, h);
            let m = mirror_v(k, w, h);
            assert(m == ((h - 1 - y) * w + x) * 4 + c);
            assert(mirror_v(m, w, h) == k);
            if h < 2 {
                assert(m == k);
            }
            assert(f[m] == buf[k]);
        }
    }
    assert(flipped_v(f, w, h) =~= buf);
}

/// Exchange the four bytes at `a` with the four bytes at `b`.
fn swap_pixel(rgba: &mut [u8], a: usize, b: usize)
    requires
        a + 4 <= b,
        b + 4 <= old(rgba)@.len(),
    ensures
        final(rgba)@.len() == old(rgba)@.len(),
        forall|k: int|
            0 <= k < old(rgba)@.len() ==> #[trigger] final(rgba)@[k] == (if a <= k < a + 4 {
                old(rgba)@[k - a + b]
            } else if b <= k < b + 4 {
                old(rgba)@[k - b + a]
            } else {
                old(rgba)@[k]
            }),
{
    let mut c: usize = 0;
    while c < 4
        invariant
            a + 4 <= b,
            b + 4 <= old(rgba)@.len(),
            rgba@.len() == old(rgba)@.len(),
            c <= 4,
            forall|k: int|
                0 <= k < old(rgba)@.len() ==> #[trigger] rgba@[k] == (if a <= k < a + c {
                    old(rgba)@[k - a + b]
                } else if b <= k < b + c {
                    old(rgba)@[k - b + a]
                } else {
                    old(rgba)@[k]
                }),
        decreases 4 - c,
    {
        let t = rgba[a + c];
        rgba[a + c] = rgba[b + c];
        rgba[b + c] = t;
        c = c + 1;
    }
}

/// Mirror each row of a `width` x `height` RGBA frame left to right, in place.
pub fn flip_horizontal(rgba: &mut [u8], width: u32, height: u32)
    requires
        width < 2 || width * height * 4 <= old(rgba)@.len(),
    ensures
        final(rgba)@ == flipped_h(old(rgba)@, width as int, height as int),
{
    let ghost orig = rgba@;
    let ghost wi = width as int;
    let ghost hi = height as int;
    if width < 2 {
        proof {
            assert forall|k: int| 0 <= k < orig.len() implies #[trigger] flipped_h(orig, wi, hi)[k] == orig[k] by {
                if k < wi * hi * 4 {
                    lemma_frame_nonempty(k, wi, hi);
                    lemma_byte_coords(k, wi);
                }
            }
            assert(flipped_h(orig, wi, hi) =~= orig);
        }
        return;
    }
    let w = width as usize;
    let h = height as usize;
    let half = w / 2;
    let len = rgba.len();
    let mut y: usize = 0;
    while y < h
        invariant
            rgba@.len() == orig.len(),
            w == wi,
            h == hi,
            2 <= w,
            half == w / 2,
            wi * hi * 4 <= orig.len(),
            orig.len() == len,
            y <= h,
            forall|k: int|
                0 <= k < orig.len() ==> #[trigger] rgba@[k] == (if k < wi * hi * 4 && byte_row(k, wi) < y {
                    orig[mirror_h(k, wi)]
                } else {
                    orig[k]
                }),
        decreases h - y,
    {
        let mut x: usize = 0;
        while x < half
            invariant
                rgba@.len() == orig.len(),
                w == wi,
                h == hi,
                2 <= w,
                half == w / 2,
                wi * hi * 4 <= orig.len(),
                orig.len() == len,
                y < h,
                x <= half,
                forall|k: int|
                    0 <= k < orig.len() ==> #[trigger] rgba@[k] == (if k < wi * hi * 4 && (byte_row(k, wi) < y
                        || (byte_row(k, wi) == y && (byte_col(k, wi) < x || byte_col(k, wi) >= wi - x))) {
                        orig[mirror_h(k, wi)]
                    } else {
                        orig[k]
                    }),
            decreases half - x,
        {
            proof {
                lemma_row_bound(y as int, wi - 1 - x, 3, wi, hi);
                assert(y * wi <= y * wi + wi - 1 - x);
            }
            let left = (y * w + x) * 4;
            let right = (y * w + (w - 1 - x)) * 4;
            let ghost before = rgba@;
            swap_pixel(rgba, left, right);
            proof {
                assert forall|k: int| 0 <= k < orig.len() implies #[trigger] rgba@[k] == (if k < wi * hi * 4 && (byte_row(k, wi) < y
                    || (byte_row(k, wi) == y && (byte_col(k, wi) < x + 1 || byte_col(k, wi) >= wi - (x + 1)))) {
                    orig[mirror_h(k, wi)]
                } else {
                    orig[k]
                }) by {
                    lemma_byte_coords(k, wi);
                    lemma_row_bound(byte_row(k, wi), byte_col(k, wi), k % 4, wi, hi);
                    if left <= k < left + 4 {
                        lemma_byte_at(y as int, x as int, k - left, wi);
                        lemma_byte_at(y as int, wi - 1 - x, k - left, wi);
                        lemma_row_bound(y as int, x as int, k - left, wi, hi);
                        assert(before[k - left + right] == orig[k - left + right]);
                    } else if right <= k < right + 4 {
                        lemma_byte_at(y as int, wi - 1 - x, k - right, wi);
                        lemma_byte_at(y as int, x as int, k - right, wi);
                        lemma_row_bound(y as int, x as int, k - right, wi, hi);
                        assert(before[k - right + left] == orig[k - right + left]);
                    } else {
                        assert(before[k] == rgba@[k]);
                    }
                }
            }
            x = x + 1;
        }
        proof {
            assert forall|k: int| 0 <= k < orig.len() implies #[trigger] rgba@[k] == (if k < wi * hi * 4 && byte_row(k, wi) < y + 1 {
                orig[mirror_h(k, wi)]
            } else {
                orig[k]
            }) by {
                lemma_byte_coords(k, wi);
                lemma_row_bound(byte_row(k, wi), byte_col(k, wi), k % 4, wi, hi);
                if byte_row(k, wi) == y && half <= byte_col(k, wi) < wi - half {
                    assert(mirror_h(k, wi) == k);
                }
            }
        }
        y = y + 1;
    }
    proof {
        assert forall|k: int| 0 <= k < orig.len() implies #[trigger] rgba@[k] == flipped_h(orig, wi, hi)[k] by {
            if k < wi * hi * 4 {
                lemma_byte_coords(k, wi);
                lemma_row_bound(byte_row(k, wi), byte_col(k, wi), k % 4, wi, hi);
            }
        }
        assert(rgba@ =~= flipped_h(orig, wi, hi));
    }
}

/// Reverse the row order of a `width` x `height` RGBA frame, in place.
pub fn flip_vertical(rgba: &mut [u8], width: u32, height: u32)
    requires
        height < 2 || width * height * 4 <= old(rgba)@.len(),
    ensures
        final(rgba)@ == flipped_v(old(rgba)@, width as int, height as int),
{
    let ghost orig = rgba@;
    let ghost wi = width as int;
    let ghost hi = height as int;
    if height < 2 || width == 0 {
        proof {
            assert forall|k: int| 0 <= k < orig.len() implies #[trigger] flipped_v(orig, wi, hi)[k] == orig[k] by {
                if k < wi * hi * 4 {
                    lemma_frame_nonempty(k, wi, hi);
                    lemma_byte_coords(k, wi);
                    lemma_row_bound(byte_row(k, wi), byte_col(k, wi), k % 4, wi, hi);
                }
            }
            assert(flipped_v(orig, wi, hi) =~= orig);
        }
        return;
    }
    let w = width as usize;
    let h = height as usize;
    let half = h / 2;
    let len = rgba.len();
    proof {
        assert forall|k: int| 0 <= k < orig.len() implies #[trigger] rgba@[k] == (if k < wi * hi * 4 && (byte_row(k, wi) < 0
            || byte_row(k, wi) > hi - 1) {
            orig[mirror_v(k, wi, hi)]
        } else {
            orig[k]
        }) by {
            if k < wi * hi * 4 {
                lemma_byte_coords(k, wi);
                lemma_row_bound(byte_row(k, wi), byte_col(k, wi), k % 4, wi, hi);
            }
        }
    }
    let mut y: usize = 0;
    while y < half
        invariant
            rgba@.len() == orig.len(),
            w == wi,
            h == hi,
            1 <= w,
            2 <= h,
            half == h / 2,
            wi * hi * 4 <= orig.len(),
            orig.len() == len,
            y <= half,
            forall|k: int|
                0 <= k < orig.len() ==> #[trigger] rgba@[k] == (if k < wi * hi * 4 && (byte_row(k, wi) < y
                    || byte_row(k, wi) > hi - 1 - y) {
                    orig[mirror_v(k, wi, hi)]
                } else {
                    orig[k]
                }),
        decreases half - y,
    {
        let mut x: usize = 0;
        while x < w
            invariant
                rgba@.len() == orig.len(),
                w == wi,
                h == hi,
                1 <= w,
                2 <= h,
                half == h / 2,
                wi * hi * 4 <= orig.len(),
                orig.len() == len,
                y < half,
                x <= w,
                forall|k: int|
                    0 <= k < orig.len() ==> #[trigger] rgba@[k] == (if k < wi * hi * 4 && (byte_row(k, wi) < y
                        || byte_row(k, wi) > hi - 1 - y || ((byte_row(k, wi) == y || byte_row(k, wi) == hi - 1 - y)
                        && byte_col(k, wi) < x)) {
                        orig[mirror_v(k, wi, hi)]
                    } else {
                        orig[k]
                    }),
            decreases w - x,
        {
            proof {
                lemma_row_bound(hi - 1 - y, x as int, 3, wi, hi);
                assert((y + 1) * wi <= (hi - 1 - y) * wi) by (nonlinear_arith)
                    requires
                        y + 1 <= hi - 1 - y,
                        0 < wi,
                ;
                assert(y * wi + x < (y + 1) * wi) by (nonlinear_arith)
                    requires
                        x < wi,
                ;
            }
            let top = (y * w + x) * 4;
            let bot = ((h - 1 - y) * w + x) * 4;
            let ghost before = rgba@;
            swap_pixel(rgba, top, bot);
            proof {
                assert forall|k: int| 0 <= k < orig.len() implies #[trigger] rgba@[k] == (if k < wi * hi * 4 && (byte_row(k, wi) < y
                    || byte_row(k, wi) > hi - 1 - y || ((byte_row(k, wi) == y || byte_row(k, wi) == hi - 1 - y)
                    && byte_col(k, wi) < x + 1)) {
                    orig[mirror_v(k, wi, hi)]
                } else {
                    orig[k]
                }) by {
                    lemma_byte_coords(k, wi);
                    lemma_row_bound(byte_row(k, wi), byte_col(k, wi), k % 4, wi, hi);
                    if top <= k < top + 4 {
                        lemma_byte_at(y as int, x as int, k - top, wi);
                        lemma_byte_at(hi - 1 - y, x as int, k - top, wi);
                        lemma_row_bound(hi - 1 - y, x as int, k - top, wi, hi);
                        assert(before[k - top + bot] == orig[k - top + bot]);
                    } else if bot <= k < bot + 4 {
                        lemma_byte_at(hi - 1 - y, x as int, k - bot, wi);
                        lemma_byte_at(y as int, x as int, k - bot, wi);
                        lemma_row_bound(y as int, x as int, k - bot, wi, hi);
                        assert(before[k - bot + top] == orig[k - bot + top]);
                    } else {
                        assert(before[k] == rgba@[k]);
                    }
                }
            }
            x = x + 1;
        }
        proof {
            assert forall|k: int| 0 <= k < orig.len() implies #[trigger] rgba@[k] == (if k < wi * hi * 4 && (byte_row(k, wi) < y + 1
                || byte_row(k, wi) > hi - 1 - (y + 1)) {
                orig[mirror_v(k, wi, hi)]
            } else {
                orig[k]
            }) by {
                lemma_byte_coords(k, wi);
                lemma_row_bound(byte_row(k, wi), byte_col(k, wi), k % 4, wi, hi);
            }
        }
        y = y + 1;
    }
    proof {
        assert forall|k: int| 0 <= k < orig.len() implies #[trigger] rgba@[k] == flipped_v(orig, wi, hi)[k] by {
            if k < wi * hi * 4 {
                lemma_byte_coords(k, wi);
                lemma_row_bound(byte_row(k, wi), byte_col(k, wi), k % 4, wi, hi);
                if !(byte_row(k, wi) < half || byte_row(k, wi) > hi - 1 - half) {
                    assert(byte_row(k, wi) == hi - 1 - byte_row(k, wi));
                    assert(mirror_v(k, wi, hi) == k);
                }
            }
        }
        assert(rgba@ =~= flipped_v(orig, wi, hi));
    }
}

/// A named crop region.
#[derive(Clone, Debug)]
pub struct CropPreset {
    pub name: String,
    pub x: u32,
    pub y: u32,
    pub w: u32,
    pub h: u32,
}

/// Named crop regions, in the order they were added.
pub struct CropPresets {
    pub presets: Vec<CropPreset>,
}

impl CropPresets {
    /// No presets.
    pub fn new() -> (r: Self)
        ensures
            r.presets@.len() == 0,
    {
        CropPresets { presets: Vec::new() }
    }

    /// Append a preset.
    pub fn add(&mut self, name: &str, x: u32, y: u32, w: u32, h: u32)
        ensures
            final(self).presets@.len() == old(self).presets@.len() + 1,
            final(self).presets@.drop_last() == old(self).presets@,
            final(self).presets@.last().name@ == name@,
            final(self).presets@.last().x == x,
            final(self).presets@.last().y == y,
            final(self).presets@.last().w == w,
            final(self).presets@.last().h == h,
    {
        self.presets.push(CropPreset { name: name.to_string(), x, y, w, h });
        proof {
            assert(self.presets@.drop_last() =~= old(self).presets@);
        }
    }

    /// The first preset named `name`, if any.
    pub fn get(&self, name: &str) -> (r: Option<&CropPreset>)
        ensures
            match r {
                Some(p) => exists|i: int|
                    0 <= i < self.presets@.len() && self.presets@[i] == *p && p.name@ == name@
                        && forall|j: int| 0 <= j < i ==> #[trigger] self.presets@[j].name@ != name@,
                None => forall|j: int|
                    0 <= j < self.presets@.len() ==> #[trigger] self.presets@[j].name@ != name@,
            },
    {
        let mut i: usize = 0;
        while i < self.presets.len()
            invariant
                i <= self.presets@.len(),
                forall|j: int| 0 <= j < i ==> #[trigger] self.presets@[j].name@ != name@,
            decreases self.presets@.len() - i,
        {
            if str_eq(self.presets[i].name.as_str(), name) {
                return Some(&self.presets[i]);
            }
            i = i + 1;
        }
        None
    }
}

} // verus!
