//! Start-up decisions of the command-line program.
use vstd::prelude::*;
use crate::text::{chars_of, spec_trim, string_from_chars, trim_chars};

verus! {

/// The token as it may appear in logs: up to 8 characters are all starred;
/// a longer one keeps its first and last 4 characters around an ellipsis.
pub open spec fn masked(t: Seq<char>) -> Seq<char> {
    if t.len() <= 8 {
        Seq::new(t.len(), |i: int| '*')
    } else {
        t.subrange(0, 4) + seq!['\u{2026}'] + t.subrange(t.len() - 4, t.len() as int)
    }
}

/// Render the API token for start-up logs without exposing the secret.
pub fn mask_token(t: &str) -> (m: String)
    ensures
        m@ == masked(t@),
{
    let chars = chars_of(t);
    let n = chars.len();
    let mut out: Vec<char> = Vec::new();
    if n <= 8 {
        let mut i: usize = 0;
        while i < n
            invariant
                i <= n,
                out@ == Seq::new(i as nat, |j: int| '*'),
            decreases n - i,
        {
            out.push('*');
            proof {
                assert(out@ =~= Seq::new((i + 1) as nat, |j: int| '*'));
            }
            i = i + 1;
        }
        proof {
            assert(out@ =~= masked(t@));
        }
        return string_from_chars(&out);
    }
    out.push(chars[0]);
    out.push(chars[1]);
    out.push(chars[2]);
    out.push(chars[3]);
    out.push('\u{2026}');
    out.push(chars[n - 4]);
    out.push(chars[n - 3]);
    out.push(chars[n - 2]);
    out.push(chars[n - 1]);
    proof {
        assert(out@ =~= masked(t@));
    }
    string_from_chars(&out)
}

/// A token given on the command line is used only when it is not blank;
/// otherwise the configured one is.
pub fn usable_cli_token(token: &Option<String>) -> (r: bool)
    ensures
        r == (match token {
            Some(t) => spec_trim(t@).len() > 0,
            None => false,
        }),
{
    match token {
        Some(t) => {
            let c = chars_of(t.as_str());
            let trimmed = trim_chars(c.as_slice());
            trimmed.len() > 0
        },
        None => false,
    }
}

} // verus!
