//! Pixel differences between two consecutive frames.
use vstd::prelude::*;
use crate::features::frame::Frame;

verus! {

/// Absolute difference of two bytes.
pub open spec fn absdiff(a: u8, b: u8) -> int {
    if a >= b {
        a - b
    } else {
        b - a
    }
}

/// Sum of the red, green and blue differences of pixel `i`.
pub open spec fn pixel_diff(p: Seq<u8>, q: Seq<u8>, i: int) -> int {
    absdiff(p[4 * i], q[4 * i]) + absdiff(p[4 * i + 1], q[4 * i + 1]) + absdiff(p[4 * i + 2], q[4 * i + 2])
}

/// Pixel `i` is one of the first `total` and its colour bytes lie inside
/// both buffers. The comparison stops at the first pixel that is not.
pub open spec fn compared(p: Seq<u8>, q: Seq<u8>, total: int, i: int) -> bool {
    0 <= i < total && 4 * i + 2 < p.len() && 4 * i + 2 < q.len()
}

/// `curr` with each compared pixel whose colour moved by more than
/// `threshold` tinted red: red set to 255, green and blue cut to a third.
pub open spec fn spec_diff_highlight(prev: Seq<u8>, curr: Seq<u8>, total: int, threshold: int) -> Seq<u8> {
    Seq::new(
        curr.len(),
        |k: int|
            if k % 4 < 3 && compared(prev, curr, total, k / 4) && pixel_diff(prev, curr, k / 4) > threshold {
                if k % 4 == 0 {
                    255u8
                } else {
                    (curr[k] / 3) as u8
                }
            } else {
                curr[k]
            },
    )
}

/// Total colour difference over the first `n` pixels that are compared.
pub open spec fn diff_total(p: Seq<u8>, q: Seq<u8>, total: int, n: nat) -> int
    decreases n,
{
    if n == 0 {
        0
    } else {
        diff_total(p, q, total, (n - 1) as nat) + if compared(p, q, total, n - 1) {
            pixel_diff(p, q, n - 1)
        } else {
            0
        }
    }
}

/// Whether pixel `i`'s colour bytes lie inside both buffers, decided
/// without overflow.
fn in_both(p: &Vec<u8>, q: &Vec<u8>, i: usize) -> (r: bool)
    requires
        i <= u32::MAX,
    ensures
        r == (4 * i + 2 < p.len() && 4 * i + 2 < q.len()),
{
    let idx = i as u64 * 4 + 2;
    idx < p.len() as u64 && idx < q.len() as u64
}

/// Absolute difference of two bytes.
pub(crate) fn byte_diff(a: u8, b: u8) -> (d: u32)
    ensures
        d == absdiff(a, b),
{
    if a >= b {
        (a - b) as u32
    } else {
        (b - a) as u32
    }
}

/// Colour difference of pixel `i` of two buffers.
fn pixel_delta(p: &Vec<u8>, q: &Vec<u8>, i: usize) -> (d: u32)
    requires
        4 * i + 2 < p.len(),
        4 * i + 2 < q.len(),
    ensures
        d == pixel_diff(p@, q@, i as int),
        d <= 765,
{
    let idx = i * 4;
    byte_diff(p[idx], q[idx]) + byte_diff(p[idx + 1], q[idx + 1]) + byte_diff(p[idx + 2], q[idx + 2])
}

/// Copy of `curr`'s pixels with every pixel that changed by more than
/// `threshold` (summed over red, green and blue) tinted red.
pub fn diff_highlight(prev: &Frame, curr: &Frame, threshold: u32) -> (out: Vec<u8>)
    requires
        curr.width * curr.height <= u32::MAX,
    ensures
        out@ == spec_diff_highlight(prev.rgba@, curr.rgba@, curr.width * curr.height, threshold as int),
{
    let total = (curr.width * curr.height) as usize;
    let mut out = curr.rgba.clone();
    let ghost p = prev.rgba@;
    let ghost c = curr.rgba@;
    proof {
        assert(out@ == c);
    }
    let mut i: usize = 0;
    while i < total
        invariant_except_break
            forall|j: int| 0 <= j < i ==> compared(p, c, total as int, j),
        invariant
            p == prev.rgba@,
            c == curr.rgba@,
            total == curr.width * curr.height,
            total <= u32::MAX,
            i <= total,
            out@.len() == c.len(),
            forall|k: int|
                0 <= k < c.len() ==> #[trigger] out@[k] == (if k / 4 < i && k % 4 < 3 && compared(p, c, total as int, k / 4)
                    && pixel_diff(p, c, k / 4) > threshold {
                    if k % 4 == 0 {
                        255u8
                    } else {
                        (c[k] / 3) as u8
                    }
                } else {
                    c[k]
                }),
        ensures
            forall|k: int|
                0 <= k < c.len() ==> #[trigger] out@[k] == spec_diff_highlight(p, c, total as int, threshold as int)[k],
        decreases total - i,
    {
        if !in_both(&prev.rgba, &curr.rgba, i) {
            proof {
                assert forall|k: int| 0 <= k < c.len() implies #[trigger] out@[k] == spec_diff_highlight(p, c, total as int, threshold as int)[k] by {
                    if k / 4 >= i && compared(p, c, total as int, k / 4) {
                        assert(4 * i + 2 <= 4 * (k / 4) + 2);
                    }
                }
            }
            break;
        }
        let idx = i * 4;
        let d = pixel_delta(&prev.rgba, &curr.rgba, i);
        if d > threshold {
            out.set(idx, 255);
            let g = out[idx + 1];
            out.set(idx + 1, g / 3);
            let b = out[idx + 2];
            out.set(idx + 2, b / 3);
        }
        proof {
            assert forall|k: int| 0 <= k < c.len() implies #[trigger] out@[k] == (if k / 4 < i + 1 && k % 4 < 3 && compared(p, c, total as int, k / 4)
                && pixel_diff(p, c, k / 4) > threshold {
                if k % 4 == 0 {
                    255u8
                } else {
                    (c[k] / 3) as u8
                }
            } else {
                c[k]
            }) by {
                if k / 4 == i {
                    assert(idx <= k < idx + 4);
                } else {
                    assert(k < idx || k >= idx + 4);
                }
            }
        }
        i = i + 1;
    }
    proof {
        assert(out@ =~= spec_diff_highlight(p, c, total as int, threshold as int));
    }
    out
}

/// Summed colour difference between two frames over `a`'s first
/// `width * height` pixels, stopping at the first pixel missing from either
/// buffer. Divided by `765` per pixel, this is the frames' diff score.
pub fn diff_sum(a: &Frame, b: &Frame) -> (s: u64)
    requires
        a.width * a.height <= u32::MAX,
    ensures
        s == diff_total(a.rgba@, b.rgba@, a.width * a.height, (a.width * a.height) as nat),
{
    let total = (a.width * a.height) as usize;
    let ghost p = a.rgba@;
    let ghost q = b.rgba@;
    let mut s: u64 = 0;
    let mut i: usize = 0;
    while i < total
        invariant_except_break
            forall|j: int| 0 <= j < i ==> compared(p, q, total as int, j),
        invariant
            p == a.rgba@,
            q == b.rgba@,
            total == a.width * a.height,
            total <= u32::MAX,
            i <= total,
            s == diff_total(p, q, total as int, i as nat),
            s <= 765 * i,
        ensures
            s == diff_total(p, q, total as int, total as nat),
        decreases total - i,
    {
        if !in_both(&a.rgba, &b.rgba, i) {
            proof {
                lemma_total_flat(p, q, total as int, i as nat, total as nat);
            }
            break;
        }
        let d = pixel_delta(&a.rgba, &b.rgba, i);
        s = s + d as u64;
        i = i + 1;
    }
    s
}

/// Past the first pixel that is not compared, no later pixel adds to the
/// total.
proof fn lemma_total_flat(p: Seq<u8>, q: Seq<u8>, total: int, i: nat, n: nat)
    requires
        i <= n,
        !(4 * i + 2 < p.len() && 4 * i + 2 < q.len()),
    ensures
        diff_total(p, q, total, n) == diff_total(p, q, total, i),
    decreases n - i,
{
    if n > i {
        lemma_total_flat(p, q, total, i, (n - 1) as nat);
        assert(!compared(p, q, total, n - 1));
    }
}

} // verus!
