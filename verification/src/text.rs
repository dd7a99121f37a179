//! Decimal rendering of integers as characters.
use vstd::prelude::*;

verus! {

/// The ASCII digit for `d` (`0 <= d < 10`).
pub open spec fn digit_char(d: int) -> char {
    (48 + d) as char
}

/// Decimal digits of `n`, most significant first, without leading zeros
/// (`0` renders as `"0"`).
pub open spec fn dec_digits(n: nat) -> Seq<char>
    decreases n,
{
    if n < 10 {
        seq![digit_char(n as int)]
    } else {
        dec_digits(n / 10).push(digit_char((n % 10) as int))
    }
}

/// `s` left-padded with `'0'` to at least `width` characters.
pub open spec fn zero_pad(s: Seq<char>, width: nat) -> Seq<char> {
    if s.len() >= width {
        s
    } else {
        Seq::new((width - s.len()) as nat, |i: int| '0') + s
    }
}

/// `10^k`.
pub open spec fn pow10(k: nat) -> nat
    decreases k,
{
    if k == 0 {
        1
    } else {
        10 * pow10((k - 1) as nat)
    }
}

/// A number below `10^k` has at most `k` decimal digits (and always one).
pub proof fn lemma_dec_digits_len(n: nat, k: nat)
    requires
        1 <= k,
        n < pow10(k),
    ensures
        1 <= dec_digits(n).len() <= k,
    decreases n,
{
    if n >= 10 {
        assert(k >= 2) by {
            if k == 1 {
                assert(pow10(1) == 10 * pow10(0));
            }
        }
        assert(pow10(k) == 10 * pow10((k - 1) as nat));
        lemma_dec_digits_len(n / 10, (k - 1) as nat);
    }
}

/// Every `u64` has at most 20 decimal digits.
pub proof fn lemma_u64_digits(n: u64)
    ensures
        1 <= dec_digits(n as nat).len() <= 20,
{
    reveal_with_fuel(pow10, 21);
    lemma_dec_digits_len(n as nat, 20);
}

/// The ASCII digit for `d`.
pub fn digit(d: u64) -> (c: char)
    requires
        d < 10,
    ensures
        c == digit_char(d as int),
{
    let b: u8 = 48u8 + d as u8;
    b as char
}

/// Decimal digits of `n`, as `format!("{}", n)` writes them.
pub fn decimal(n: u64) -> (v: Vec<char>)
    ensures
        v@ == dec_digits(n as nat),
    decreases n,
{
    if n < 10 {
        let mut v: Vec<char> = Vec::new();
        v.push(digit(n));
        v
    } else {
        let mut v = decimal(n / 10);
        v.push(digit(n % 10));
        v
    }
}

/// Decimal digits of `n` zero-padded to `width`, as `format!("{:0w$}", n)`
/// writes them.
pub fn decimal_padded(n: u64, width: usize) -> (v: Vec<char>)
    ensures
        v@ == zero_pad(dec_digits(n as nat), width as nat),
{
    let digits = decimal(n);
    if digits.len() >= width {
        return digits;
    }
    let mut v: Vec<char> = Vec::new();
    let pad = width - digits.len();
    let mut i: usize = 0;
    while i < pad
        invariant
            i <= pad,
            v@ == Seq::new(i as nat, |j: int| '0'),
        decreases pad - i,
    {
        v.push('0');
        proof {
            assert(v@ =~= Seq::new((i + 1) as nat, |j: int| '0'));
        }
        i = i + 1;
    }
    let mut j: usize = 0;
    while j < digits.len()
        invariant
            j <= digits@.len(),
            v@ == Seq::new(pad as nat, |k: int| '0') + digits@.subrange(0, j as int),
        decreases digits@.len() - j,
    {
        v.push(digits[j]);
        proof {
            assert(v@ =~= Seq::new(pad as nat, |k: int| '0') + digits@.subrange(0, j + 1));
        }
        j = j + 1;
    }
    proof {
        assert(digits@.subrange(0, digits@.len() as int) =~= digits@);
    }
    v
}

/// The characters of `s`, in order.
pub fn chars_of(s: &str) -> (v: Vec<char>)
    ensures
        v@ == s@,
{
    let mut v: Vec<char> = Vec::new();
    for c in it: s.chars()
        invariant
            v@ == it.seq().subrange(0, it.index() as int),
    {
        v.push(c);
    }
    v
}

/// Append the characters of `s` to `out`.
pub fn append_chars(out: &mut Vec<char>, s: &str)
    ensures
        final(out)@ == old(out)@ + s@,
{
    let ghost start = out@;
    for c in it: s.chars()
        invariant
            out@ == start + it.seq().subrange(0, it.index() as int),
    {
        out.push(c);
    }
    proof {
        assert(out@ =~= start + s@);
    }
}

/// `String::from_iter` over characters: the string holding exactly `v`.
#[verifier::external_body]
pub(crate) fn string_from_chars(v: &Vec<char>) -> (s: String)
    ensures
        s@ == v@,
{
    v.iter().collect()
}

/// Whether two strings hold the same characters.
pub fn str_eq(a: &str, b: &str) -> (r: bool)
    ensures
        r == (a@ == b@),
{
    let x = chars_of(a);
    let y = chars_of(b);
    if x.len() != y.len() {
        return false;
    }
    let mut i: usize = 0;
    while i < x.len()
        invariant
            x@ == a@,
            y@ == b@,
            x@.len() == y@.len(),
            i <= x@.len(),
            forall|j: int| 0 <= j < i ==> x@[j] == y@[j],
        decreases x@.len() - i,
    {
        if x[i] != y[i] {
            return false;
        }
        i = i + 1;
    }
    proof {
        assert(a@ =~= b@);
    }
    true
}

/// Whether `needle` occurs in `hay` as a contiguous run.
pub open spec fn occurs_in(needle: Seq<char>, hay: Seq<char>) -> bool {
    exists|i: int| 0 <= i <= hay.len() - needle.len() && #[trigger] hay.subrange(i, i + needle.len()) == needle
}

/// Whether `needle` occurs in `hay` (an empty needle always does), as
/// `str::contains` decides it.
pub fn contains_chars(hay: &Vec<char>, needle: &Vec<char>) -> (r: bool)
    ensures
        r == occurs_in(needle@, hay@),
{
    let n = needle.len();
    let m = hay.len();
    if n > m {
        return false;
    }
    let mut i: usize = 0;
    while i <= m - n
        invariant
            n == needle@.len(),
            m == hay@.len(),
            n <= m,
            i <= m - n + 1,
            forall|j: int| 0 <= j < i ==> #[trigger] hay@.subrange(j, j + n as int) != needle@,
        decreases m - n + 1 - i,
    {
        let mut k: usize = 0;
        let mut same = true;
        while k < n
            invariant
                n == needle@.len(),
                m == hay@.len(),
                i + n <= m,
                k <= n,
                same == (forall|q: int| 0 <= q < k ==> hay@[i + q] == needle@[q]),
            decreases n - k,
        {
            if hay[i + k] != needle[k] {
                same = false;
            }
            k = k + 1;
        }
        if same {
            assert(hay@.subrange(i as int, i + n as int) =~= needle@);
            return true;
        }
        proof {
            assert(exists|q: int| 0 <= q < n && hay@[i + q] != needle@[q]);
            let q = choose|q: int| 0 <= q < n && hay@[i + q] != needle@[q];
            assert(hay@.subrange(i as int, i + n as int)[q] != needle@[q]);
        }
        i = i + 1;
    }
    false
}

/// Unicode lowercase mapping of a character sequence, as std's
/// `str::to_lowercase` computes it.
pub uninterp spec fn lowercase(s: Seq<char>) -> Seq<char>;

/// `str::to_lowercase`. The contract only names the result: it is the
/// Unicode lowercase mapping of `s`, a function of `s` alone.
#[verifier::external_body]
pub(crate) fn to_lowercase(s: &str) -> (r: String)
    ensures
        r@ == lowercase(s@),
{
    s.to_lowercase()
}

/// Whether `c` is an ASCII decimal digit.
pub open spec fn is_digit(c: char) -> bool {
    '0' <= c <= '9'
}

/// Value of a run of decimal digits (most significant first).
pub open spec fn digits_value(s: Seq<char>) -> nat
    decreases s.len(),
{
    if s.len() == 0 {
        0
    } else {
        digits_value(s.drop_last()) * 10 + ((s.last() as int) - 48) as nat
    }
}

/// `s` without one leading `+`.
pub open spec fn strip_plus(s: Seq<char>) -> Seq<char> {
    if s.len() > 0 && s[0] == '+' {
        s.drop_first()
    } else {
        s
    }
}

/// Every character of `d` is a decimal digit.
pub open spec fn all_digits(d: Seq<char>) -> bool {
    forall|i: int| 0 <= i < d.len() ==> is_digit(#[trigger] d[i])
}

/// What `str::parse::<u32>` gives for `s`: an optional leading `+`, then at
/// least one digit and nothing else, with a value that fits `u32`.
pub open spec fn spec_parse_u32(s: Seq<char>) -> Option<u32> {
    let d = strip_plus(s);
    if d.len() == 0 || !all_digits(d) {
        None
    } else if digits_value(d) > u32::MAX {
        None
    } else {
        Some(digits_value(d) as u32)
    }
}

/// Parse a `u32` the way `str::parse::<u32>` does.
pub fn parse_u32(s: &[char]) -> (r: Option<u32>)
    ensures
        r == spec_parse_u32(s@),
{
    let n = s.len();
    let mut start: usize = 0;
    if n > 0 && s[0] == '+' {
        start = 1;
    }
    let ghost d = strip_plus(s@);
    assert(d =~= s@.subrange(start as int, n as int));
    if start == n {
        return None;
    }
    let cap: u64 = 0x1_0000_0000;
    let mut acc: u64 = 0;
    let mut i = start;
    while i < n
        invariant
            start <= i <= n,
            n == s@.len(),
            d == s@.subrange(start as int, n as int),
            d == strip_plus(s@),
            cap == 0x1_0000_0000,
            forall|j: int| start <= j < i ==> is_digit(#[trigger] s@[j]),
            acc == (if digits_value(s@.subrange(start as int, i as int)) < cap {
                digits_value(s@.subrange(start as int, i as int))
            } else {
                cap as nat
            }),
        decreases n - i,
    {
        let c = s[i];
        if !('0' <= c && c <= '9') {
            assert(d[i - start] == s@[i as int]);
            assert(!is_digit(d[i - start]));
            return None;
        }
        let dv = (c as u32 - 48) as u64;
        let ghost pre = s@.subrange(start as int, i as int);
        let ghost next = s@.subrange(start as int, i + 1);
        assert(next.drop_last() =~= pre);
        assert(digits_value(next) == digits_value(pre) * 10 + dv);
        let v = acc * 10 + dv;
        acc = if v < cap { v } else { cap };
        i = i + 1;
    }
    assert forall|j: int| 0 <= j < d.len() implies is_digit(#[trigger] d[j]) by {
        assert(d[j] == s@[start + j]);
    }
    if acc < cap {
        Some(acc as u32)
    } else {
        None
    }
}

/// `s` split at every `.`, as `str::split('.')` yields the pieces (a string
/// without a dot is one piece; an empty string is one empty piece).
pub open spec fn split_dots(s: Seq<char>) -> Seq<Seq<char>>
    decreases s.len(),
{
    if s.len() == 0 {
        seq![Seq::<char>::empty()]
    } else {
        let p = split_dots(s.drop_last());
        if s.last() == '.' {
            p.push(Seq::<char>::empty())
        } else {
            p.update(p.len() - 1, p.last().push(s.last()))
        }
    }
}

/// Splitting always yields at least one piece.
pub proof fn lemma_split_nonempty(s: Seq<char>)
    ensures
        split_dots(s).len() >= 1,
    decreases s.len(),
{
    if s.len() > 0 {
        lemma_split_nonempty(s.drop_last());
    }
}

/// The pieces of `s` between dots.
pub fn split_on_dots(s: &[char]) -> (parts: Vec<Vec<char>>)
    ensures
        parts@.len() == split_dots(s@).len(),
        forall|i: int| 0 <= i < parts@.len() ==> #[trigger] parts@[i]@ == split_dots(s@)[i],
{
    let mut parts: Vec<Vec<char>> = Vec::new();
    let mut cur: Vec<char> = Vec::new();
    let mut i: usize = 0;
    proof {
        assert(s@.subrange(0, 0) =~= Seq::<char>::empty());
    }
    while i < s.len()
        invariant
            i <= s@.len(),
            parts@.len() + 1 == split_dots(s@.subrange(0, i as int)).len(),
            forall|j: int| 0 <= j < parts@.len() ==> #[trigger] parts@[j]@ == split_dots(s@.subrange(0, i as int))[j],
            cur@ == split_dots(s@.subrange(0, i as int)).last(),
        decreases s@.len() - i,
    {
        let ghost prev = split_dots(s@.subrange(0, i as int));
        let ghost parts0 = parts@;
        proof {
            assert(s@.subrange(0, i + 1).drop_last() =~= s@.subrange(0, i as int));
            lemma_split_nonempty(s@.subrange(0, i as int));
        }
        if s[i] == '.' {
            parts.push(cur);
            cur = Vec::new();
            proof {
                let nxt = split_dots(s@.subrange(0, i + 1));
                assert(nxt == prev.push(Seq::<char>::empty()));
                assert forall|j: int| 0 <= j < parts@.len() implies #[trigger] parts@[j]@ == nxt[j] by {
                    if j < parts@.len() - 1 {
                        assert(parts@[j] == parts0[j]);
                    }
                }
            }
        } else {
            cur.push(s[i]);
        }
        i = i + 1;
    }
    proof {
        assert(s@.subrange(0, s@.len() as int) =~= s@);
    }
    parts.push(cur);
    proof {
        assert forall|j: int| 0 <= j < parts@.len() implies #[trigger] parts@[j]@ == split_dots(s@)[j] by {}
    }
    parts
}

/// Whether `c` has the Unicode `White_Space` property, as
/// `char::is_whitespace` decides it.
pub open spec fn is_unicode_ws(c: char) -> bool {
    ('\u{9}' <= c <= '\u{D}') || c == ' ' || c == '\u{85}' || c == '\u{A0}' || c == '\u{1680}'
        || ('\u{2000}' <= c <= '\u{200A}') || c == '\u{2028}' || c == '\u{2029}' || c == '\u{202F}'
        || c == '\u{205F}' || c == '\u{3000}'
}

fn is_whitespace(c: char) -> (r: bool)
    ensures
        r == is_unicode_ws(c),
{
    ('\u{9}' <= c && c <= '\u{D}') || c == ' ' || c == '\u{85}' || c == '\u{A0}' || c == '\u{1680}'
        || ('\u{2000}' <= c && c <= '\u{200A}') || c == '\u{2028}' || c == '\u{2029}' || c
        == '\u{202F}' || c == '\u{205F}' || c == '\u{3000}'
}

/// `s` without leading and trailing whitespace, as `str::trim` gives it: the
/// run from the first to the last non-whitespace character.
pub open spec fn spec_trim(s: Seq<char>) -> Seq<char> {
    if forall|i: int| 0 <= i < s.len() ==> is_unicode_ws(#[trigger] s[i]) {
        Seq::empty()
    } else {
        let lo = choose|lo: int| 0 <= lo < s.len() && !is_unicode_ws(s[lo]) && forall|j: int| 0 <= j < lo ==> is_unicode_ws(#[trigger] s[j]);
        let hi = choose|hi: int| 0 <= hi < s.len() && !is_unicode_ws(s[hi]) && forall|j: int| hi < j < s.len() ==> is_unicode_ws(#[trigger] s[j]);
        s.subrange(lo, hi + 1)
    }
}

/// `str::trim` on a character sequence.
pub fn trim_chars(s: &[char]) -> (r: Vec<char>)
    ensures
        r@ == spec_trim(s@),
{
    let n = s.len();
    let mut lo: usize = 0;
    while lo < n && is_whitespace(s[lo])
        invariant
            lo <= n,
            n == s@.len(),
            forall|j: int| 0 <= j < lo ==> is_unicode_ws(#[trigger] s@[j]),
        decreases n - lo,
    {
        lo = lo + 1;
    }
    if lo == n {
        return Vec::new();
    }
    let mut hi: usize = n - 1;
    while is_whitespace(s[hi])
        invariant
            lo <= hi < n,
            n == s@.len(),
            !is_unicode_ws(s@[lo as int]),
            forall|j: int| hi < j < n ==> is_unicode_ws(#[trigger] s@[j]),
        decreases hi,
    {
        hi = hi - 1;
    }
    let mut r: Vec<char> = Vec::new();
    let mut i = lo;
    while i <= hi
        invariant
            lo <= i <= hi + 1,
            hi < n,
            n == s@.len(),
            r@ == s@.subrange(lo as int, i as int),
        decreases hi + 1 - i,
    {
        r.push(s[i]);
        proof {
            assert(r@ =~= s@.subrange(lo as int, i + 1));
        }
        i = i + 1;
    }
    proof {
        let l2 = choose|l2: int| 0 <= l2 < s@.len() && !is_unicode_ws(s@[l2]) && forall|j: int| 0 <= j < l2 ==> is_unicode_ws(#[trigger] s@[j]);
        let h2 = choose|h2: int| 0 <= h2 < s@.len() && !is_unicode_ws(s@[h2]) && forall|j: int| h2 < j < s@.len() ==> is_unicode_ws(#[trigger] s@[j]);
        assert(!(forall|i: int| 0 <= i < s@.len() ==> is_unicode_ws(#[trigger] s@[i])));
        if l2 < lo {
            assert(is_unicode_ws(s@[l2]));
        }
        if lo < l2 {
            assert(is_unicode_ws(s@[lo as int]));
        }
        if h2 < hi {
            assert(is_unicode_ws(s@[hi as int]));
        }
        if hi < h2 {
            assert(is_unicode_ws(s@[h2]));
        }
    }
    r
}

} // verus!
