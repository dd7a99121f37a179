//! Translation overlay: pairing recognised lines with their translations,
//! and reading a LibreTranslate reply.
use vstd::prelude::*;
use crate::text::{append_chars, chars_of, dec_digits, spec_trim, string_from_chars, trim_chars};

verus! {

/// Translation settings; no translated regions are kept yet.
pub struct TranslationOverlay {
    pub source_lang: String,
    pub target_lang: String,
    pub enabled: bool,
}

impl TranslationOverlay {
    /// Overlay settings for the language pair `source` -> `target`, switched
    /// off until enabled.
    pub fn new(source: &str, target: &str) -> (t: Self)
        ensures
            t.source_lang@ == source@,
            t.target_lang@ == target@,
            !t.enabled,
    {
        TranslationOverlay { source_lang: source.to_string(), target_lang: target.to_string(), enabled: false }
    }
}

/// Characters before the first `\n` of `s` (all of `s` when there is none).
pub open spec fn line_len(s: Seq<char>) -> nat
    decreases s.len(),
{
    if s.len() == 0 || s[0] == '\n' {
        0
    } else {
        1 + line_len(s.drop_first())
    }
}

/// `line` without one trailing carriage return.
pub open spec fn strip_cr(line: Seq<char>) -> Seq<char> {
    if line.len() > 0 && line[line.len() - 1] == '\r' {
        line.drop_last()
    } else {
        line
    }
}

/// The lines of `s`, as `str::lines` splits it: at `\n` or `\r\n`; a final
/// line ending adds no empty line, and the empty text has no lines.
pub open spec fn lines_of(s: Seq<char>) -> Seq<Seq<char>>
    decreases s.len(),
{
    if s.len() == 0 {
        Seq::empty()
    } else {
        let n = line_len(s);
        if n >= s.len() {
            seq![s]
        } else {
            seq![strip_cr(s.subrange(0, n as int))] + lines_of(s.subrange(n as int + 1, s.len() as int))
        }
    }
}

proof fn lemma_line_len_scan(s: Seq<char>, n: nat)
    requires
        n <= s.len(),
        forall|j: int| 0 <= j < n ==> s[j] != '\n',
        n == s.len() || s[n as int] == '\n',
    ensures
        line_len(s) == n,
    decreases n,
{
    if n > 0 {
        let r = s.drop_first();
        assert forall|j: int| 0 <= j < n - 1 implies r[j] != '\n' by {
            assert(r[j] == s[j + 1]);
        }
        lemma_line_len_scan(r, (n - 1) as nat);
    }
}

/// The characters `s[from..to]` as a string.
fn string_of(s: &Vec<char>, from: usize, to: usize) -> (r: String)
    requires
        from <= to <= s@.len(),
    ensures
        r@ == s@.subrange(from as int, to as int),
{
    let mut v: Vec<char> = Vec::new();
    let mut i = from;
    while i < to
        invariant
            from <= i <= to <= s@.len(),
            v@ == s@.subrange(from as int, i as int),
        decreases to - i,
    {
        v.push(s[i]);
        proof {
            assert(v@ =~= s@.subrange(from as int, i + 1));
        }
        i = i + 1;
    }
    string_from_chars(&v)
}

/// The lines of `s`, as `str::lines` gives them.
pub fn lines(s: &str) -> (v: Vec<String>)
    ensures
        v@.len() == lines_of(s@).len(),
        forall|k: int| 0 <= k < v@.len() ==> #[trigger] v@[k]@ == lines_of(s@)[k],
{
    let c = chars_of(s);
    let n = c.len();
    let mut v: Vec<String> = Vec::new();
    let mut start: usize = 0;
    let ghost done: Seq<Seq<char>> = Seq::empty();
    proof {
        assert(c@.subrange(0, n as int) =~= c@);
    }
    while start < n
        invariant
            n == c@.len(),
            c@ == s@,
            start <= n,
            done + lines_of(c@.subrange(start as int, n as int)) == lines_of(s@),
            v@.len() == done.len(),
            forall|k: int| 0 <= k < v@.len() ==> #[trigger] v@[k]@ == done[k],
        decreases n - start,
    {
        let ghost rest = c@.subrange(start as int, n as int);
        let mut end = start;
        while end < n && c[end] != '\n'
            invariant
                start <= end <= n,
                n == c@.len(),
                forall|j: int| start <= j < end ==> c@[j] != '\n',
            decreases n - end,
        {
            end = end + 1;
        }
        proof {
            assert forall|j: int| 0 <= j < end - start implies rest[j] != '\n' by {
                assert(rest[j] == c@[start + j]);
            }
            lemma_line_len_scan(rest, (end - start) as nat);
        }
        if end >= n {
            let line = string_of(&c, start, n);
            proof {
                assert(lines_of(rest) == seq![rest]);
                assert(lines_of(c@.subrange(n as int, n as int)) =~= Seq::<Seq<char>>::empty());
                done = done.push(rest);
            }
            v.push(line);
            start = n;
            proof {
                assert(done + lines_of(c@.subrange(start as int, n as int)) =~= lines_of(s@));
            }
        } else {
            let stop = if end > start && c[end - 1] == '\r' { end - 1 } else { end };
            let line = string_of(&c, start, stop);
            proof {
                let raw = rest.subrange(0, (end - start) as int);
                assert(raw =~= c@.subrange(start as int, end as int));
                assert(line@ =~= strip_cr(raw));
                assert(rest.subrange((end - start) as int + 1, rest.len() as int) =~= c@.subrange(end + 1, n as int));
                assert(lines_of(rest) == seq![strip_cr(raw)] + lines_of(c@.subrange(end + 1, n as int)));
                done = done.push(strip_cr(raw));
                assert(done + lines_of(c@.subrange(end + 1, n as int)) =~= lines_of(s@));
            }
            v.push(line);
            start = end + 1;
        }
    }
    proof {
        assert(c@.subrange(start as int, n as int) =~= Seq::<char>::empty());
        assert(done =~= lines_of(s@));
    }
    v
}

/// Pair each recognised line with the translated line at the same
/// position; extra lines on either side are dropped.
pub fn pair_lines(original: &str, translated: &str) -> (pairs: Vec<(String, String)>)
    ensures
        pairs@.len() == (if lines_of(original@).len() <= lines_of(translated@).len() {
            lines_of(original@).len()
        } else {
            lines_of(translated@).len()
        }),
        forall|k: int|
            0 <= k < pairs@.len() ==> (#[trigger] pairs@[k]).0@ == lines_of(original@)[k] && pairs@[k].1@
                == lines_of(translated@)[k],
{
    let a = lines(original);
    let b = lines(translated);
    let n = if a.len() <= b.len() { a.len() } else { b.len() };
    let mut pairs: Vec<(String, String)> = Vec::new();
    let mut i: usize = 0;
    while i < n
        invariant
            n <= a@.len(),
            n <= b@.len(),
            n == (if a@.len() <= b@.len() { a@.len() } else { b@.len() }),
            a@.len() == lines_of(original@).len(),
            b@.len() == lines_of(translated@).len(),
            forall|k: int| 0 <= k < a@.len() ==> #[trigger] a@[k]@ == lines_of(original@)[k],
            forall|k: int| 0 <= k < b@.len() ==> #[trigger] b@[k]@ == lines_of(translated@)[k],
            i <= n,
            pairs@.len() == i,
            forall|k: int|
                0 <= k < i ==> (#[trigger] pairs@[k]).0@ == lines_of(original@)[k] && pairs@[k].1@ == lines_of(
                    translated@,
                )[k],
        decreases n - i,
    {
        let x = a[i].clone();
        let y = b[i].clone();
        pairs.push((x, y));
        i = i + 1;
    }
    pairs
}

/// What serde_json reads for `key` in the JSON `body`: the string value of
/// that field of the top-level object; `None` when the body is not JSON,
/// has no such field, or the field is not a string.
pub uninterp spec fn json_string_field(body: Seq<char>, key: Seq<char>) -> Option<Seq<char>>;

/// `serde_json::from_str::<Value>` on `body`, then `value[key].as_str()`.
/// The contract names the outcome, a function of `body` and `key` alone.
#[verifier::external_body]
fn json_field(body: &str, key: &str) -> (r: Option<String>)
    ensures
        match (r, json_string_field(body@, key@)) {
            (Some(s), Some(t)) => s@ == t,
            (None, None) => true,
            _ => false,
        },
{
    let json: serde_json::Value = serde_json::from_str(body).ok()?;
    json[key].as_str().map(str::to_string)
}

/// The outcome of a LibreTranslate reply: for a 2xx status its
/// `translatedText`, otherwise an error naming the status and the reply's
/// `error` (or its trimmed body). A reply without `translatedText` is an
/// error too: the source text is never passed off as a translation.
pub open spec fn translation_result(status: u16, body: Seq<char>) -> Result<Seq<char>, Seq<char>> {
    if !(200 <= status < 300) {
        let detail = match json_string_field(body, "error"@) {
            Some(e) => e,
            None => spec_trim(body),
        };
        Err("translation API error "@ + dec_digits(status as nat) + ": "@ + detail
            + " (set LIBRETRANSLATE_URL / LIBRETRANSLATE_API_KEY)"@)
    } else {
        match json_string_field(body, "translatedText"@) {
            Some(t) => Ok(t),
            None => Err("translation API returned no translatedText: "@ + spec_trim(body)),
        }
    }
}

/// Append the decimal digits of `n`.
fn append_u16(out: &mut Vec<char>, n: u16)
    ensures
        final(out)@ == old(out)@ + dec_digits(n as nat),
{
    let d = crate::text::decimal(n as u64);
    let ghost start = out@;
    let mut i: usize = 0;
    while i < d.len()
        invariant
            i <= d@.len(),
            out@ == start + d@.subrange(0, i as int),
        decreases d@.len() - i,
    {
        out.push(d[i]);
        proof {
            assert(out@ =~= start + d@.subrange(0, i + 1));
        }
        i = i + 1;
    }
    proof {
        assert(d@.subrange(0, d@.len() as int) =~= d@);
    }
}

/// Append `v`'s characters.
fn append_vec(out: &mut Vec<char>, v: &Vec<char>)
    ensures
        final(out)@ == old(out)@ + v@,
{
    let ghost start = out@;
    let mut i: usize = 0;
    while i < v.len()
        invariant
            i <= v@.len(),
            out@ == start + v@.subrange(0, i as int),
        decreases v@.len() - i,
    {
        out.push(v[i]);
        proof {
            assert(out@ =~= start + v@.subrange(0, i + 1));
        }
        i = i + 1;
    }
    proof {
        assert(v@.subrange(0, v@.len() as int) =~= v@);
    }
}

/// Read a LibreTranslate reply with HTTP `status` and `body`.
pub fn parse_translation(status: u16, body: &str) -> (r: Result<String, String>)
    ensures
        match (r, translation_result(status, body@)) {
            (Ok(s), Ok(t)) => s@ == t,
            (Err(s), Err(t)) => s@ == t,
            _ => false,
        },
{
    let trimmed = trim_chars(chars_of(body).as_slice());
    if !(200 <= status && status < 300) {
        let mut out: Vec<char> = Vec::new();
        append_chars(&mut out, "translation API error ");
        append_u16(&mut out, status);
        append_chars(&mut out, ": ");
        match json_field(body, "error") {
            Some(e) => append_chars(&mut out, e.as_str()),
            None => append_vec(&mut out, &trimmed),
        }
        append_chars(&mut out, " (set LIBRETRANSLATE_URL / LIBRETRANSLATE_API_KEY)");
        return Err(string_from_chars(&out));
    }
    match json_field(body, "translatedText") {
        Some(t) => Ok(t),
        None => {
            let mut out: Vec<char> = Vec::new();
            append_chars(&mut out, "translation API returned no translatedText: ");
            append_vec(&mut out, &trimmed);
            Err(string_from_chars(&out))
        },
    }
}

} // verus!
