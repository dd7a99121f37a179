//! Session statistics export: the edit decision list (EDL) that marks one
//! event per recorded sample, a second apart.
use vstd::prelude::*;
use crate::text::{append_chars, dec_digits, decimal_padded, string_from_chars, zero_pad};

verus! {

/// The timecode of second `i`: hours, minutes, seconds, frame `00`.
pub open spec fn timecode(i: nat) -> Seq<char> {
    zero_pad(dec_digits(i / 3600), 2) + seq![':'] + zero_pad(dec_digits((i % 3600) / 60), 2) + seq![':']
        + zero_pad(dec_digits(i % 60), 2) + ":00"@
}

/// The EDL line of event `i` (numbered from 1): the same timecode as
/// source in, source out, record in and record out.
pub open spec fn edl_event(i: nat) -> Seq<char> {
    let tc = timecode(i);
    zero_pad(dec_digits(i + 1), 3) + "  AX  V  C  "@ + tc + seq![' '] + tc + seq![' '] + tc + seq![' '] + tc + seq!['\n']
}

/// The lines of the first `n` events.
pub open spec fn edl_events(n: nat) -> Seq<char>
    decreases n,
{
    if n == 0 {
        Seq::empty()
    } else {
        edl_events((n - 1) as nat) + edl_event((n - 1) as nat)
    }
}

/// The EDL of a session with `n` samples.
pub open spec fn edl_document(name: Seq<char>, n: nat) -> Seq<char> {
    "TITLE: "@ + name + "\nFCM: NON-DROP FRAME\n\n"@ + edl_events(n)
}

/// Append `v`.
fn push_all(out: &mut Vec<char>, v: &Vec<char>)
    ensures
        final(out)@ == old(out)@ + v@,
{
    let ghost start = out@;
    let mut i: usize = 0;
    while i < v.len()
        invariant
            i <= v@.len(),
            out@ == start + v@.subrange(0, i as int),
        decreases v@.len() - i,
    {
        out.push(v[i]);
        proof {
            assert(out@ =~= start + v@.subrange(0, i + 1));
        }
        i = i + 1;
    }
    proof {
        assert(v@.subrange(0, v@.len() as int) =~= v@);
    }
}

/// The timecode of second `i`.
fn timecode_chars(i: u64) -> (tc: Vec<char>)
    ensures
        tc@ == timecode(i as nat),
{
    let mut out: Vec<char> = Vec::new();
    push_all(&mut out, &decimal_padded(i / 3600, 2));
    out.push(':');
    push_all(&mut out, &decimal_padded((i % 3600) / 60, 2));
    out.push(':');
    push_all(&mut out, &decimal_padded(i % 60, 2));
    append_chars(&mut out, ":00");
    proof {
        assert(out@ =~= timecode(i as nat));
    }
    out
}

/// The EDL line of event `i`.
fn edl_event_chars(i: u64) -> (line: Vec<char>)
    requires
        i < u64::MAX,
    ensures
        line@ == edl_event(i as nat),
{
    let tc = timecode_chars(i);
    let mut out: Vec<char> = Vec::new();
    push_all(&mut out, &decimal_padded(i + 1, 3));
    append_chars(&mut out, "  AX  V  C  ");
    push_all(&mut out, &tc);
    out.push(' ');
    push_all(&mut out, &tc);
    out.push(' ');
    push_all(&mut out, &tc);
    out.push(' ');
    push_all(&mut out, &tc);
    out.push('\n');
    proof {
        assert(out@ =~= edl_event(i as nat));
    }
    out
}

/// The EDL for a session named `session_name` with `count` samples: a
/// title, the frame-count mode, then one event per sample.
pub fn edl_text(session_name: &str, count: u64) -> (s: String)
    requires
        count < u64::MAX,
    ensures
        s@ == edl_document(session_name@, count as nat),
{
    let mut out: Vec<char> = Vec::new();
    append_chars(&mut out, "TITLE: ");
    append_chars(&mut out, session_name);
    append_chars(&mut out, "\nFCM: NON-DROP FRAME\n\n");
    let ghost head = out@;
    let mut i: u64 = 0;
    while i < count
        invariant
            i <= count,
            count < u64::MAX,
            out@ == head + edl_events(i as nat),
        decreases count - i,
    {
        let line = edl_event_chars(i);
        push_all(&mut out, &line);
        proof {
            assert(out@ =~= head + edl_events((i + 1) as nat));
        }
        i = i + 1;
    }
    proof {
        assert(out@ =~= edl_document(session_name@, count as nat));
    }
    string_from_chars(&out)
}

} // verus!
