//! Annex-B H.264 byte streams: NAL units separated by `00 00 01` or
//! `00 00 00 01` start codes.
use vstd::prelude::*;

verus! {

/// A 4-byte start code `00 00 00 01` begins at `i`.
pub open spec fn sc4(b: Seq<u8>, i: int) -> bool {
    0 <= i && i + 4 <= b.len() && b[i] == 0 && b[i + 1] == 0 && b[i + 2] == 0 && b[i + 3] == 1
}

/// A 3-byte start code `00 00 01` begins at `i`.
pub open spec fn sc3(b: Seq<u8>, i: int) -> bool {
    0 <= i && i + 3 <= b.len() && b[i] == 0 && b[i + 1] == 0 && b[i + 2] == 1
}

/// Payload offsets found by scanning forward from `i`: after each start code
/// the scan resumes at the payload, preferring the 4-byte form.
pub open spec fn scan(b: Seq<u8>, i: int) -> Seq<int>
    decreases b.len() - i,
{
    if i < 0 || i + 3 > b.len() {
        Seq::empty()
    } else if sc4(b, i) {
        seq![i + 4].add(scan(b, i + 4))
    } else if sc3(b, i) {
        seq![i + 3].add(scan(b, i + 3))
    } else {
        scan(b, i + 1)
    }
}

/// End of the NAL unit that precedes the payload starting at `next_start`:
/// the start code before it is excluded, including the leading zero of a
/// 4-byte code.
pub open spec fn nal_end(b: Seq<u8>, next_start: int) -> int {
    let end = if next_start >= 3 { next_start - 3 } else { 0 };
    if end >= 1 && b[end - 1] == 0 {
        end - 1
    } else {
        end
    }
}

/// Byte ranges `[start, end)` of every NAL unit in `b`.
pub open spec fn nal_ranges(b: Seq<u8>) -> Seq<(int, int)> {
    let s = scan(b, 0);
    Seq::new(
        s.len(),
        |k: int|
            if k + 1 < s.len() {
                (s[k], nal_end(b, s[k + 1]))
            } else {
                (s[k], b.len() as int)
            },
    )
}

/// Every payload offset found from `i` lies after a start code that begins at
/// or after `i`; offsets ascend by at least 3.
pub proof fn lemma_scan_props(b: Seq<u8>, i: int)
    requires
        0 <= i,
    ensures
        forall|k: int|
            0 <= k < scan(b, i).len() ==> i + 3 <= #[trigger] scan(b, i)[k] <= b.len() && b[scan(
                b,
                i,
            )[k] - 1] == 1,
        forall|k: int|
            0 <= k < scan(b, i).len() - 1 ==> #[trigger] scan(b, i)[k] + 3 <= scan(b, i)[k + 1],
    decreases b.len() - i,
{
    if i + 3 > b.len() {
        assert(scan(b, i).len() == 0);
    } else if sc4(b, i) {
        lemma_scan_props(b, i + 4);
        let t = scan(b, i + 4);
        assert(scan(b, i) == seq![i + 4].add(t));
        assert forall|k: int| 0 <= k < scan(b, i).len() implies i + 3 <= #[trigger] scan(b, i)[k]
            <= b.len() && b[scan(b, i)[k] - 1] == 1 by {
            if k > 0 {
                assert(scan(b, i)[k] == t[k - 1]);
            }
        }
        assert forall|k: int| 0 <= k < scan(b, i).len() - 1 implies #[trigger] scan(b, i)[k] + 3
            <= scan(b, i)[k + 1] by {
            if k > 0 {
                assert(scan(b, i)[k] == t[k - 1]);
                assert(scan(b, i)[k + 1] == t[k]);
            } else {
                assert(scan(b, i)[1] == t[0]);
            }
        }
    } else if sc3(b, i) {
        lemma_scan_props(b, i + 3);
        let t = scan(b, i + 3);
        assert(scan(b, i) == seq![i + 3].add(t));
        assert forall|k: int| 0 <= k < scan(b, i).len() implies i + 3 <= #[trigger] scan(b, i)[k]
            <= b.len() && b[scan(b, i)[k] - 1] == 1 by {
            if k > 0 {
                assert(scan(b, i)[k] == t[k - 1]);
            }
        }
        assert forall|k: int| 0 <= k < scan(b, i).len() - 1 implies #[trigger] scan(b, i)[k] + 3
            <= scan(b, i)[k + 1] by {
            if k > 0 {
                assert(scan(b, i)[k] == t[k - 1]);
                assert(scan(b, i)[k + 1] == t[k]);
            } else {
                assert(scan(b, i)[1] == t[0]);
            }
        }
    } else {
        lemma_scan_props(b, i + 1);
        assert(scan(b, i) == scan(b, i + 1));
    }
}

/// Every NAL range lies within the stream and is well-ordered.
pub proof fn lemma_ranges_well_formed(b: Seq<u8>)
    ensures
        forall|k: int|
            0 <= k < nal_ranges(b).len() ==> 0 <= (#[trigger] nal_ranges(b)[k]).0 <= nal_ranges(
                b,
            )[k].1 <= b.len(),
{
    lemma_scan_props(b, 0);
    let s = scan(b, 0);
    assert forall|k: int| 0 <= k < nal_ranges(b).len() implies 0 <= (
    #[trigger] nal_ranges(b)[k]).0 <= nal_ranges(b)[k].1 <= b.len() by {
        if k + 1 < s.len() {
            assert(s[k] + 3 <= s[k + 1]);
            assert(b[s[k] - 1] == 1);
        }
    }
}

/// The 4-byte start code that precedes every NAL unit this library writes.
pub open spec fn start_code() -> Seq<u8> {
    seq![0u8, 0u8, 0u8, 1u8]
}

/// An Annex-B stream holding `nals` in order, each behind a 4-byte start code.
pub open spec fn annex_b(nals: Seq<Seq<u8>>) -> Seq<u8>
    decreases nals.len(),
{
    if nals.len() == 0 {
        Seq::empty()
    } else {
        start_code() + nals[0] + annex_b(nals.drop_first())
    }
}

/// The NAL unit holds no `00 00 01` sequence (H.264 emulation prevention
/// guarantees this for real payloads).
pub open spec fn free_of_start_codes(n: Seq<u8>) -> bool {
    forall|j: int| !#[trigger] sc3(n, j)
}

/// Payload offsets of `nals` when their stream begins at offset `base`.
pub open spec fn payloads(base: int, nals: Seq<Seq<u8>>) -> Seq<int>
    decreases nals.len(),
{
    if nals.len() == 0 {
        Seq::empty()
    } else {
        seq![base + 4].add(payloads(base + 4 + nals[0].len(), nals.drop_first()))
    }
}

/// No start code begins inside a payload `[start, e)` that is followed by the
/// end of the stream or by a 4-byte start code.
proof fn lemma_no_code_inside(b: Seq<u8>, start: int, e: int, q: int)
    requires
        0 <= start <= q < e <= b.len(),
        free_of_start_codes(b.subrange(start, e)),
        e == b.len() || (e + 4 <= b.len() && b[e] == 0 && b[e + 1] == 0 && b[e + 2] == 0 && b[e
            + 3] == 1),
    ensures
        !sc3(b, q),
        !sc4(b, q),
{
    let n = b.subrange(start, e);
    assert(!sc3(n, q - start));
    if q + 1 < e {
        assert(!sc3(n, q + 1 - start));
    }
}

/// Scanning across a payload finds nothing before its end.
proof fn lemma_skip_payload(b: Seq<u8>, start: int, e: int, q: int)
    requires
        0 <= start <= q <= e <= b.len(),
        free_of_start_codes(b.subrange(start, e)),
        e == b.len() || (e + 4 <= b.len() && b[e] == 0 && b[e + 1] == 0 && b[e + 2] == 0 && b[e
            + 3] == 1),
    ensures
        scan(b, q) == scan(b, e),
    decreases e - q,
{
    if q < e {
        lemma_no_code_inside(b, start, e, q);
        lemma_skip_payload(b, start, e, q + 1);
        if q + 3 > b.len() {
            assert(scan(b, q).len() == 0);
            assert(scan(b, e).len() == 0);
            assert(scan(b, q) =~= scan(b, e));
        } else {
            assert(scan(b, q) == scan(b, q + 1));
        }
    }
}

/// Scanning `p + annex_b(nals)` from the end of `p` finds exactly the payload
/// offsets of `nals`.
proof fn lemma_scan_annex_b(p: Seq<u8>, nals: Seq<Seq<u8>>)
    requires
        forall|j: int| 0 <= j < nals.len() ==> free_of_start_codes(#[trigger] nals[j]),
    ensures
        scan(p + annex_b(nals), p.len() as int) == payloads(p.len() as int, nals),
    decreases nals.len(),
{
    let b = p + annex_b(nals);
    let i = p.len() as int;
    if nals.len() == 0 {
        assert(b =~= p);
        assert(scan(b, i).len() == 0);
        assert(scan(b, i) =~= payloads(i, nals));
    } else {
        let n0 = nals[0];
        let rest = nals.drop_first();
        let p2 = p + start_code() + n0;
        assert(b =~= p2 + annex_b(rest));
        assert(sc4(b, i));
        assert(scan(b, i) == seq![i + 4].add(scan(b, i + 4)));
        let e = i + 4 + n0.len();
        assert(b.subrange(i + 4, e) =~= n0);
        if rest.len() > 0 {
            assert(annex_b(rest) == start_code() + rest[0] + annex_b(rest.drop_first()));
            assert(b[e] == 0 && b[e + 1] == 0 && b[e + 2] == 0 && b[e + 3] == 1);
        } else {
            assert(annex_b(rest).len() == 0);
        }
        lemma_skip_payload(b, i + 4, e, i + 4);
        assert forall|j: int| 0 <= j < rest.len() implies free_of_start_codes(#[trigger] rest[j]) by {
            assert(rest[j] == nals[j + 1]);
        }
        lemma_scan_annex_b(p2, rest);
        assert(p2.len() == e);
        assert(scan(b, i) =~= payloads(i, nals));
    }
}

/// Where each payload of `p + annex_b(nals)` lies and what precedes the next.
proof fn lemma_payload_layout(p: Seq<u8>, nals: Seq<Seq<u8>>)
    ensures
        payloads(p.len() as int, nals).len() == nals.len(),
        forall|j: int|
            #![trigger payloads(p.len() as int, nals)[j]]
            0 <= j < nals.len() ==> {
                let s = payloads(p.len() as int, nals);
                let b = p + annex_b(nals);
                &&& p.len() as int + 4 <= s[j]
                &&& s[j] + nals[j].len() <= b.len()
                &&& b.subrange(s[j], s[j] + nals[j].len()) == nals[j]
                &&& j + 1 < nals.len() ==> s[j + 1] == s[j] + nals[j].len() + 4 && b[s[j + 1] - 4]
                    == 0
                &&& j + 1 == nals.len() ==> s[j] + nals[j].len() == b.len()
            },
    decreases nals.len(),
{
    let b = p + annex_b(nals);
    let i = p.len() as int;
    if nals.len() > 0 {
        let n0 = nals[0];
        let rest = nals.drop_first();
        let p2 = p + start_code() + n0;
        assert(b =~= p2 + annex_b(rest));
        lemma_payload_layout(p2, rest);
        assert(p2.len() == p.len() + 4 + n0.len());
        let s = payloads(i, nals);
        let t = payloads(p2.len() as int, rest);
        assert(s == seq![i + 4].add(t));
        assert forall|j: int| #![trigger s[j]] 0 <= j < nals.len() implies {
            &&& i + 4 <= s[j]
            &&& s[j] + nals[j].len() <= b.len()
            &&& b.subrange(s[j], s[j] + nals[j].len()) == nals[j]
            &&& j + 1 < nals.len() ==> s[j + 1] == s[j] + nals[j].len() + 4 && b[s[j + 1] - 4] == 0
            &&& j + 1 == nals.len() ==> s[j] + nals[j].len() == b.len()
        } by {
            if j == 0 {
                assert(s[0] == i + 4);
                assert(b.subrange(i + 4, i + 4 + n0.len()) =~= n0);
                if rest.len() > 0 {
                    assert(t[0] == p2.len() + 4);
                    assert(s[1] == t[0]);
                    assert(annex_b(rest) == start_code() + rest[0] + annex_b(rest.drop_first()));
                    assert(annex_b(rest)[0] == 0);
                    let b2 = p2 + annex_b(rest);
                    assert(b2[p2.len() as int] == 0);
                    assert(b2 == b);
                    assert(b[p2.len() as int] == 0);
                } else {
                    assert(annex_b(rest).len() == 0);
                }
            } else {
                let b2 = p2 + annex_b(rest);
                assert(b2 == b);
                assert(s[j] == t[j - 1]);
                assert(nals[j] == rest[j - 1]);
                assert(p2.len() as int + 4 <= t[j - 1]);
                assert(t[j - 1] + rest[j - 1].len() <= b2.len());
                assert(b2.subrange(t[j - 1], t[j - 1] + rest[j - 1].len()) == rest[j - 1]);
                if j + 1 < nals.len() {
                    assert(s[j + 1] == t[j]);
                    assert(t[j] == t[j - 1] + rest[j - 1].len() + 4 && b2[t[j] - 4] == 0);
                } else {
                    assert(t[j - 1] + rest[j - 1].len() == b2.len());
                }
            }
        }
    }
}

/// Indexing a stream of NAL units written behind 4-byte start codes gives
/// back exactly those units, in order.
pub proof fn lemma_index_annex_b_roundtrip(nals: Seq<Seq<u8>>)
    requires
        forall|j: int| 0 <= j < nals.len() ==> free_of_start_codes(#[trigger] nals[j]),
    ensures
        nal_ranges(annex_b(nals)).len() == nals.len(),
        forall|j: int|
            0 <= j < nals.len() ==> annex_b(nals).subrange(
                (#[trigger] nal_ranges(annex_b(nals))[j]).0,
                nal_ranges(annex_b(nals))[j].1,
            ) == nals[j],
{
    let p = Seq::<u8>::empty();
    let b = annex_b(nals);
    assert(p + b =~= b);
    lemma_scan_annex_b(p, nals);
    lemma_payload_layout(p, nals);
    let s = scan(b, 0);
    assert(s == payloads(0, nals));
    assert forall|j: int| 0 <= j < nals.len() implies b.subrange(
        (#[trigger] nal_ranges(b)[j]).0,
        nal_ranges(b)[j].1,
    ) == nals[j] by {
        if j + 1 < nals.len() {
            assert(nal_end(b, s[j + 1]) == s[j] + nals[j].len());
        }
    }
}

/// Split an H.264 byte stream into its NAL units by scanning for the 3- or
/// 4-byte Annex-B start codes. Returns the byte range `[start, end)` of each.
pub fn index_nal_units(bytes: &[u8]) -> (ranges: Vec<(usize, usize)>)
    ensures
        ranges@.len() == nal_ranges(bytes@).len(),
        forall|k: int|
            0 <= k < ranges@.len() ==> (#[trigger] ranges@[k]).0 as int == nal_ranges(bytes@)[k].0
                && ranges@[k].1 as int == nal_ranges(bytes@)[k].1,
        forall|k: int|
            0 <= k < ranges@.len() ==> (#[trigger] ranges@[k]).0 <= ranges@[k].1 <= bytes@.len(),
{
    let ghost b = bytes@;
    let ghost all = scan(b, 0);
    proof {
        lemma_scan_props(b, 0);
    }
    let n = bytes.len();
    let mut starts: Vec<usize> = Vec::new();
    let mut i: usize = 0;
    while i <= n && n - i >= 3
        invariant
            n == b.len(),
            bytes@ == b,
            all == scan(b, 0),
            i <= n,
            starts@.len() + scan(b, i as int).len() == all.len(),
            forall|k: int| 0 <= k < starts@.len() ==> #[trigger] starts@[k] as int == all[k],
            forall|k: int|
                0 <= k < scan(b, i as int).len() ==> #[trigger] scan(b, i as int)[k] == all[starts@.len() + k],
        decreases n - i,
    {
        let ghost t = scan(b, i as int);
        if bytes[i] == 0 && bytes[i + 1] == 0 {
            if n - i >= 4 && bytes[i + 2] == 0 && bytes[i + 3] == 1 {
                assert(sc4(b, i as int));
                assert(t == seq![i as int + 4].add(scan(b, i as int + 4)));
                assert(all[starts@.len() as int] == i + 4) by {
                    assert(t[0] == i + 4);
                }
                starts.push(i + 4);
                i = i + 4;
                proof {
                    assert forall|k: int| 0 <= k < scan(b, i as int).len() implies #[trigger] scan(
                        b,
                        i as int,
                    )[k] == all[starts@.len() + k] by {
                        assert(scan(b, i as int)[k] == t[k + 1]);
                    }
                }
                continue;
            }
            if bytes[i + 2] == 1 {
                assert(!sc4(b, i as int));
                assert(sc3(b, i as int));
                assert(t == seq![i as int + 3].add(scan(b, i as int + 3)));
                assert(all[starts@.len() as int] == i + 3) by {
                    assert(t[0] == i + 3);
                }
                starts.push(i + 3);
                i = i + 3;
                proof {
                    assert forall|k: int| 0 <= k < scan(b, i as int).len() implies #[trigger] scan(
                        b,
                        i as int,
                    )[k] == all[starts@.len() + k] by {
                        assert(scan(b, i as int)[k] == t[k + 1]);
                    }
                }
                continue;
            }
        }
        assert(!sc4(b, i as int) && !sc3(b, i as int));
        assert(t == scan(b, i as int + 1));
        i = i + 1;
    }
    assert(scan(b, i as int).len() == 0);
    assert(starts@.len() == all.len());
    let m = starts.len();
    let mut ranges: Vec<(usize, usize)> = Vec::new();
    let mut k: usize = 0;
    while k + 1 < m
        invariant
            m == starts@.len(),
            m == all.len(),
            n == b.len(),
            bytes@ == b,
            all == scan(b, 0),
            k <= m,
            m == 0 ==> k == 0,
            m > 0 ==> k < m,
            forall|j: int| 0 <= j < m ==> #[trigger] starts@[j] as int == all[j],
            forall|j: int| 0 <= j < m ==> #[trigger] all[j] <= n,
            ranges@.len() == k,
            forall|j: int|
                0 <= j < k ==> (#[trigger] ranges@[j]).0 as int == nal_ranges(b)[j].0
                    && ranges@[j].1 as int == nal_ranges(b)[j].1,
        decreases m - k,
    {
        let next_start = starts[k + 1];
        let mut end = next_start.saturating_sub(3);
        if end >= 1 && bytes[end - 1] == 0 {
            end = end - 1;
        }
        assert(end as int == nal_end(b, all[k + 1]));
        ranges.push((starts[k], end));
        k = k + 1;
    }
    if m > 0 {
        ranges.push((starts[m - 1], n));
    }
    proof {
        lemma_ranges_well_formed(b);
        assert(ranges@.len() == nal_ranges(b).len());
        assert forall|j: int| 0 <= j < ranges@.len() implies (#[trigger] ranges@[j]).0 <= ranges@[j].1
            <= bytes@.len() by {
            assert(nal_ranges(b)[j] == nal_ranges(b)[j]);
        }
    }
    ranges
}

} // verus!
