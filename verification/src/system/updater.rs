//! Release-version comparison for the update check.
use vstd::prelude::*;
use crate::system::installer::VERSION;
use crate::text::{
    append_chars, chars_of, dec_digits, decimal, parse_u32, spec_parse_u32, split_dots, split_on_dots, string_from_chars,
};

verus! {

/// What the update check reports when a newer release exists.
#[derive(Debug)]
pub struct UpdateInfo {
    pub current: String,
    pub latest: String,
    pub url: String,
    pub changelog: String,
}

/// The numeric components of a version: the dot-separated pieces that parse
/// as `u32`, in order (others are skipped).
pub open spec fn version_parts(pieces: Seq<Seq<char>>) -> Seq<u32>
    decreases pieces.len(),
{
    if pieces.len() == 0 {
        Seq::empty()
    } else {
        let rest = version_parts(pieces.drop_last());
        match spec_parse_u32(pieces.last()) {
            Some(v) => rest.push(v),
            None => rest,
        }
    }
}

/// Component `i`, or 0 past the end.
pub open spec fn part_at(v: Seq<u32>, i: int) -> u32 {
    if 0 <= i < v.len() {
        v[i]
    } else {
        0
    }
}

/// `a` is greater than `b` from component `i` on, comparing component-wise
/// with missing components read as 0.
pub open spec fn parts_greater_from(a: Seq<u32>, b: Seq<u32>, i: int) -> bool
    decreases (if a.len() > b.len() { a.len() } else { b.len() }) - i,
{
    if i < 0 || i >= a.len() && i >= b.len() {
        false
    } else if part_at(a, i) > part_at(b, i) {
        true
    } else if part_at(a, i) < part_at(b, i) {
        false
    } else {
        parts_greater_from(a, b, i + 1)
    }
}

/// Whether version string `a` is newer than `b`.
pub open spec fn spec_version_newer(a: Seq<char>, b: Seq<char>) -> bool {
    parts_greater_from(version_parts(split_dots(a)), version_parts(split_dots(b)), 0)
}

/// No version is newer than itself, and of two versions at most one is newer.
proof fn lemma_parts_order(a: Seq<u32>, b: Seq<u32>, i: int)
    requires
        i >= 0,
    ensures
        !parts_greater_from(a, a, i),
        parts_greater_from(a, b, i) ==> !parts_greater_from(b, a, i),
    decreases (if a.len() > b.len() { a.len() } else { b.len() }) - i,
{
    if i >= a.len() && i >= b.len() {
    } else {
        lemma_parts_order(a, b, i + 1);
    }
}

/// A version is never newer than itself, and newer-than is asymmetric.
pub proof fn lemma_version_newer_strict(a: Seq<char>, b: Seq<char>)
    ensures
        !spec_version_newer(a, a),
        spec_version_newer(a, b) ==> !spec_version_newer(b, a),
{
    lemma_parts_order(version_parts(split_dots(a)), version_parts(split_dots(b)), 0);
}

/// Component `k` of a parsed version, 0 past its end.
pub open spec fn component(v: Seq<u32>, k: int) -> int {
    if 0 <= k < v.len() {
        v[k] as int
    } else {
        0
    }
}

/// Comparing from component `i`: if `a` and `b` agree on `[i, k)` and `a`
/// is greater at `k`, `a` is greater; if `b` is greater there, it is not.
proof fn lemma_first_difference(a: Seq<u32>, b: Seq<u32>, i: int, k: int)
    requires
        0 <= i <= k,
        forall|j: int| i <= j < k ==> #[trigger] component(a, j) == component(b, j),
        component(a, k) != component(b, k),
    ensures
        parts_greater_from(a, b, i) == (component(a, k) > component(b, k)),
    decreases k - i,
{
    assert(component(a, i) == part_at(a, i) as int);
    assert(component(b, i) == part_at(b, i) as int);
    if i < k {
        assert(component(a, i) == component(b, i));
        if i >= a.len() && i >= b.len() {
            assert(k >= a.len() && k >= b.len());
            assert(component(a, k) == 0 && component(b, k) == 0);
        } else {
            lemma_first_difference(a, b, i + 1, k);
        }
    } else {
        if i >= a.len() && i >= b.len() {
            assert(component(a, k) == 0 && component(b, k) == 0);
        }
    }
}

/// Versions agreeing on every component from `i` on are not greater.
proof fn lemma_all_equal(a: Seq<u32>, b: Seq<u32>, i: int)
    requires
        0 <= i,
        forall|j: int| #[trigger] component(a, j) == component(b, j),
    ensures
        !parts_greater_from(a, b, i),
    decreases (if a.len() > b.len() { a.len() } else { b.len() }) - i,
{
    assert(component(a, i) == part_at(a, i) as int);
    assert(component(b, i) == part_at(b, i) as int);
    if !(i >= a.len() && i >= b.len()) {
        lemma_all_equal(a, b, i + 1);
    }
}

/// Versions are ordered lexicographically over all their numeric components,
/// a missing one reading as 0: when `a` and `b` agree on the components
/// before `k` and differ at `k`, `a` is newer exactly when its component `k`
/// is the greater.
pub proof fn lemma_version_newer_first_difference(a: Seq<char>, b: Seq<char>, k: int)
    requires
        0 <= k,
        forall|j: int|
            0 <= j < k ==> #[trigger] component(version_parts(split_dots(a)), j) == component(
                version_parts(split_dots(b)),
                j,
            ),
        component(version_parts(split_dots(a)), k) != component(version_parts(split_dots(b)), k),
    ensures
        spec_version_newer(a, b) == (component(version_parts(split_dots(a)), k) > component(
            version_parts(split_dots(b)),
            k,
        )),
{
    lemma_first_difference(version_parts(split_dots(a)), version_parts(split_dots(b)), 0, k);
}

/// Versions whose numeric components all agree (a missing one reading as
/// 0) are not newer than one another.
pub proof fn lemma_version_equal_not_newer(a: Seq<char>, b: Seq<char>)
    requires
        forall|j: int| #[trigger] component(version_parts(split_dots(a)), j) == component(version_parts(split_dots(b)), j),
    ensures
        !spec_version_newer(a, b),
{
    lemma_all_equal(version_parts(split_dots(a)), version_parts(split_dots(b)), 0);
}

fn parts_of(s: &str) -> (v: Vec<u32>)
    ensures
        v@ == version_parts(split_dots(s@)),
{
    let chars = crate::text::chars_of(s);
    let pieces = split_on_dots(chars.as_slice());
    let ghost ps = split_dots(s@);
    let mut v: Vec<u32> = Vec::new();
    let mut i: usize = 0;
    proof {
        assert(ps.take(0) =~= Seq::<Seq<char>>::empty());
    }
    while i < pieces.len()
        invariant
            i <= pieces@.len(),
            ps == split_dots(s@),
            pieces@.len() == ps.len(),
            forall|j: int| 0 <= j < pieces@.len() ==> #[trigger] pieces@[j]@ == ps[j],
            v@ == version_parts(ps.take(i as int)),
        decreases pieces@.len() - i,
    {
        proof {
            assert(ps.take(i + 1).drop_last() =~= ps.take(i as int));
            assert(ps.take(i + 1).last() == pieces@[i as int]@);
        }
        match parse_u32(pieces[i].as_slice()) {
            Some(x) => v.push(x),
            None => {},
        }
        i = i + 1;
    }
    proof {
        assert(ps.take(ps.len() as int) =~= ps);
    }
    v
}

/// Simple semver comparison: is `a` newer than `b`? Components are compared
/// left to right, a missing component counting as 0.
pub fn version_newer(a: &str, b: &str) -> (r: bool)
    ensures
        r == spec_version_newer(a@, b@),
{
    let va = parts_of(a);
    let vb = parts_of(b);
    let n = if va.len() > vb.len() { va.len() } else { vb.len() };
    let mut i: usize = 0;
    while i < n
        invariant
            n == (if va@.len() > vb@.len() { va@.len() } else { vb@.len() }),
            i <= n,
            va@ == version_parts(split_dots(a@)),
            vb@ == version_parts(split_dots(b@)),
            parts_greater_from(va@, vb@, 0) == parts_greater_from(va@, vb@, i as int),
        decreases n - i,
    {
        let x = if i < va.len() { va[i] } else { 0 };
        let y = if i < vb.len() { vb[i] } else { 0 };
        if x > y {
            return true;
        }
        if x < y {
            return false;
        }
        i = i + 1;
    }
    false
}

/// Why a release query failed, by its HTTP status.
pub open spec fn release_status_text(status: u16) -> Option<Seq<char>> {
    if status == 200 {
        None
    } else if status == 404 {
        Some("no published GitHub release found"@)
    } else if status == 403 || status == 429 {
        Some("GitHub API rate limit reached \u{2014} try again later"@)
    } else {
        Some("GitHub API returned HTTP "@ + dec_digits(status as nat))
    }
}

/// Why a release query failed, by its HTTP status; `None` for 200, after
/// which the release is read.
pub fn release_status_error(status: u16) -> (r: Option<String>)
    ensures
        match (r, release_status_text(status)) {
            (Some(m), Some(t)) => m@ == t,
            (None, None) => true,
            _ => false,
        },
{
    if status == 200 {
        None
    } else if status == 404 {
        Some("no published GitHub release found".to_string())
    } else if status == 403 || status == 429 {
        Some("GitHub API rate limit reached \u{2014} try again later".to_string())
    } else {
        let mut out: Vec<char> = Vec::new();
        append_chars(&mut out, "GitHub API returned HTTP ");
        let d = decimal(status as u64);
        let ghost head = out@;
        let mut i: usize = 0;
        while i < d.len()
            invariant
                i <= d@.len(),
                out@ == head + d@.subrange(0, i as int),
            decreases d@.len() - i,
        {
            out.push(d[i]);
            proof {
                assert(d@.subrange(0, i as int + 1) =~= d@.subrange(0, i as int).push(d@[i as int]));
            }
            i = i + 1;
        }
        proof {
            assert(d@.subrange(0, d@.len() as int) =~= d@);
        }
        Some(string_from_chars(&out))
    }
}

/// A release tag without its leading `v`s.
pub open spec fn strip_v(tag: Seq<char>) -> Seq<char>
    decreases tag.len(),
{
    if tag.len() > 0 && tag[0] == 'v' {
        strip_v(tag.drop_first())
    } else {
        tag
    }
}

/// The version a release tag names: the tag without its leading `v`s.
pub fn release_version(tag: &str) -> (v: String)
    ensures
        v@ == strip_v(tag@),
{
    let c = chars_of(tag);
    let mut i: usize = 0;
    proof {
        assert(c@.subrange(0, c@.len() as int) =~= c@);
    }
    while i < c.len() && c[i] == 'v'
        invariant
            i <= c@.len(),
            c@ == tag@,
            strip_v(tag@) == strip_v(c@.subrange(i as int, c@.len() as int)),
        decreases c@.len() - i,
    {
        proof {
            assert(c@.subrange(i as int, c@.len() as int).drop_first() =~= c@.subrange(i as int + 1, c@.len() as int));
        }
        i = i + 1;
    }
    proof {
        assert(strip_v(c@.subrange(i as int, c@.len() as int)) == c@.subrange(i as int, c@.len() as int));
    }
    let mut out: Vec<char> = Vec::new();
    let mut j: usize = i;
    while j < c.len()
        invariant
            i <= j <= c@.len(),
            out@ == c@.subrange(i as int, j as int),
        decreases c@.len() - j,
    {
        out.push(c[j]);
        proof {
            assert(c@.subrange(i as int, j as int + 1) =~= c@.subrange(i as int, j as int).push(c@[j as int]));
        }
        j = j + 1;
    }
    string_from_chars(&out)
}

/// The update a release offers: present exactly when its version (the tag
/// without leading `v`s) is newer than this build's.
pub fn update_for_release(tag_name: &str, html_url: String, body: Option<String>) -> (r: Option<UpdateInfo>)
    ensures
        r is Some <==> spec_version_newer(strip_v(tag_name@), VERSION@),
        r matches Some(u) ==> u.current@ == VERSION@ && u.latest@ == strip_v(tag_name@) && u.url@ == html_url@
            && u.changelog@ == (match body {
            Some(b) => b@,
            None => ""@,
        }),
{
    let latest = release_version(tag_name);
    if version_newer(latest.as_str(), VERSION) {
        let changelog = match body {
            Some(b) => b,
            None => {
                proof {
                    reveal_strlit("");
                }
                "".to_string()
            },
        };
        Some(UpdateInfo { current: VERSION.to_string(), latest, url: html_url, changelog })
    } else {
        None
    }
}

} // verus!
