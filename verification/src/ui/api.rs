//! Decisions of the REST API: who may call it, how command outcomes are
//! reported, and what the synthetic-device state endpoint shows.
use vstd::prelude::*;
use vstd::utf8::encode_utf8_decode_utf8;
use crate::synthetic::layout::{app_letter, spec_app_letter};
use crate::synthetic::state::{Screen, StateSnapshot};
use crate::text::{chars_of, string_from_chars};

verus! {

/// Whether `s` begins with `p`.
pub open spec fn has_prefix(s: Seq<char>, p: Seq<char>) -> bool {
    p.len() <= s.len() && s.subrange(0, p.len() as int) == p
}

/// The token of an `Authorization: Bearer <token>` header value.
pub open spec fn bearer_token(h: Seq<char>) -> Option<Seq<char>> {
    if has_prefix(h, "Bearer "@) {
        Some(h.subrange(7, h.len() as int))
    } else {
        None
    }
}

/// Length of the first `&`-separated parameter of a query string.
pub open spec fn param_len(q: Seq<char>) -> nat
    decreases q.len(),
{
    if q.len() == 0 || q[0] == '&' {
        0
    } else {
        1 + param_len(q.drop_first())
    }
}

/// The value of the first `token=` parameter of a query string.
pub open spec fn query_token(q: Seq<char>) -> Option<Seq<char>>
    decreases q.len(),
{
    let n = param_len(q);
    let param = q.subrange(0, n as int);
    if has_prefix(param, "token="@) {
        Some(param.subrange(6, n as int))
    } else if n >= q.len() {
        None
    } else {
        query_token(q.subrange(n as int + 1, q.len() as int))
    }
}

/// A request may use the API when no token is configured, or when it
/// presents the configured token as a bearer header or as `?token=`.
pub open spec fn is_authorized(api_token: Seq<char>, auth_header: Option<Seq<char>>, query: Option<Seq<char>>) -> bool {
    ||| api_token.len() == 0
    ||| (auth_header matches Some(h) && bearer_token(h) == Some(api_token))
    ||| (query matches Some(q) && query_token(q) == Some(api_token))
}

/// Byte-wise equality that looks at every byte of equal-length inputs, so
/// that the time taken does not tell where they differ.
pub fn constant_time_eq(a: &[u8], b: &[u8]) -> (r: bool)
    ensures
        r == (a@ == b@),
{
    if a.len() != b.len() {
        return false;
    }
    let mut diff: u8 = 0;
    let mut i: usize = 0;
    while i < a.len()
        invariant
            a@.len() == b@.len(),
            i <= a@.len(),
            (diff == 0) == (forall|j: int| 0 <= j < i ==> a@[j] == b@[j]),
        decreases a@.len() - i,
    {
        let x = a[i];
        let y = b[i];
        let d = diff;
        assert(((d | (x ^ y)) == 0) == (d == 0 && x == y)) by (bit_vector);
        diff = d | (x ^ y);
        i = i + 1;
    }
    proof {
        if diff == 0 {
            assert(a@ =~= b@);
        }
    }
    diff == 0
}

/// Whether a presented token equals the configured one, compared as bytes
/// in constant time.
fn tokens_match(presented: &Vec<char>, api_token: &str) -> (r: bool)
    ensures
        r == (presented@ == api_token@),
{
    let t = string_from_chars(presented);
    let r = constant_time_eq(t.as_str().as_bytes(), api_token.as_bytes());
    proof {
        encode_utf8_decode_utf8(t@);
        encode_utf8_decode_utf8(api_token@);
    }
    r
}

/// Whether `s[start..]` begins with the characters of `p`.
fn starts_with_at(s: &Vec<char>, start: usize, end: usize, p: &str) -> (r: bool)
    requires
        start <= end <= s@.len(),
    ensures
        r == has_prefix(s@.subrange(start as int, end as int), p@),
{
    let pc = chars_of(p);
    if pc.len() > end - start {
        return false;
    }
    let mut i: usize = 0;
    while i < pc.len()
        invariant
            pc@ == p@,
            start <= end <= s@.len(),
            pc@.len() <= end - start,
            i <= pc@.len(),
            forall|j: int| 0 <= j < i ==> s@[start + j] == pc@[j],
        decreases pc@.len() - i,
    {
        if s[start + i] != pc[i] {
            proof {
                assert(s@.subrange(start as int, end as int).subrange(0, pc@.len() as int)[i as int] != p@[i as int]);
            }
            return false;
        }
        i = i + 1;
    }
    proof {
        assert(s@.subrange(start as int, end as int).subrange(0, pc@.len() as int) =~= p@);
    }
    true
}

/// The characters `s[from..to]`.
fn slice_chars(s: &Vec<char>, from: usize, to: usize) -> (r: Vec<char>)
    requires
        from <= to <= s@.len(),
    ensures
        r@ == s@.subrange(from as int, to as int),
{
    let mut r: Vec<char> = Vec::new();
    let mut i = from;
    while i < to
        invariant
            from <= i <= to <= s@.len(),
            r@ == s@.subrange(from as int, i as int),
        decreases to - i,
    {
        r.push(s[i]);
        proof {
            assert(r@ =~= s@.subrange(from as int, i + 1));
        }
        i = i + 1;
    }
    r
}

/// Where the parameter starting at `start` ends: the next `&` or the end.
fn param_end(q: &Vec<char>, start: usize) -> (end: usize)
    requires
        start <= q@.len(),
    ensures
        end == start + param_len(q@.subrange(start as int, q@.len() as int)),
        end <= q@.len(),
{
    let mut end = start;
    proof {
        lemma_param_len_split(q@.subrange(start as int, q@.len() as int), 0);
    }
    while end < q.len() && q[end] != '&'
        invariant
            start <= end <= q@.len(),
            forall|j: int| start <= j < end ==> q@[j] != '&',
        decreases q@.len() - end,
    {
        end = end + 1;
    }
    proof {
        lemma_param_len_scan(q@.subrange(start as int, q@.len() as int), (end - start) as nat);
    }
    end
}

/// `param_len` of a prefix of non-`&` characters followed by `&` or the end.
proof fn lemma_param_len_scan(q: Seq<char>, n: nat)
    requires
        n <= q.len(),
        forall|j: int| 0 <= j < n ==> q[j] != '&',
        n == q.len() || q[n as int] == '&',
    ensures
        param_len(q) == n,
    decreases n,
{
    if n > 0 {
        let r = q.drop_first();
        assert forall|j: int| 0 <= j < n - 1 implies r[j] != '&' by {
            assert(r[j] == q[j + 1]);
        }
        lemma_param_len_scan(r, (n - 1) as nat);
    }
}

/// `param_len` never runs past the string.
proof fn lemma_param_len_split(q: Seq<char>, k: nat)
    ensures
        param_len(q) <= q.len(),
    decreases q.len(),
{
    if q.len() > 0 && q[0] != '&' {
        lemma_param_len_split(q.drop_first(), k);
    }
}

/// The value of the first `token=` parameter of a query string.
fn find_query_token(q: &Vec<char>) -> (r: Option<Vec<char>>)
    ensures
        match (r, query_token(q@)) {
            (Some(v), Some(t)) => v@ == t,
            (None, None) => true,
            _ => false,
        },
{
    let mut start: usize = 0;
    proof {
        assert(q@.subrange(0, q@.len() as int) =~= q@);
        reveal_strlit("token=");
    }
    loop
        invariant
            "token="@.len() == 6,
            start <= q@.len(),
            query_token(q@.subrange(start as int, q@.len() as int)) == query_token(q@),
        decreases q@.len() - start,
    {
        let ghost rest = q@.subrange(start as int, q@.len() as int);
        let end = param_end(q, start);
        proof {
            assert(q@.subrange(start as int, end as int) =~= rest.subrange(0, (end - start) as int));
        }
        if starts_with_at(q, start, end, "token=") {
            let v = slice_chars(q, start + 6, end);
            proof {
                assert(v@ =~= rest.subrange(0, (end - start) as int).subrange(6, (end - start) as int));
            }
            return Some(v);
        }
        if end >= q.len() {
            return None;
        }
        proof {
            assert(rest.subrange(end - start + 1, rest.len() as int) =~= q@.subrange(end + 1, q@.len() as int));
        }
        start = end + 1;
    }
}

/// Whether a request may use the API: always when `api_token` is empty,
/// otherwise only with the token as `Authorization: Bearer <token>` or as a
/// `token=<token>` query parameter (the first such parameter counts).
pub fn authorized(api_token: &str, auth_header: Option<&str>, query: Option<&str>) -> (r: bool)
    ensures
        r == is_authorized(
            api_token@,
            match auth_header {
                Some(h) => Some(h@),
                None => None,
            },
            match query {
                Some(q) => Some(q@),
                None => None,
            },
        ),
{
    if api_token.is_empty() {
        return true;
    }
    proof {
        reveal_strlit("Bearer ");
    }
    let header_ok = match auth_header {
        Some(h) => {
            let hc = chars_of(h);
            if starts_with_at(&hc, 0, hc.len(), "Bearer ") {
                let t = slice_chars(&hc, 7, hc.len());
                proof {
                    assert(hc@.subrange(0, hc@.len() as int) =~= hc@);
                }
                tokens_match(&t, api_token)
            } else {
                proof {
                    assert(hc@.subrange(0, hc@.len() as int) =~= hc@);
                }
                false
            }
        },
        None => false,
    };
    let query_ok = match query {
        Some(q) => {
            let qc = chars_of(q);
            match find_query_token(&qc) {
                Some(t) => tokens_match(&t, api_token),
                None => false,
            }
        },
        None => false,
    };
    header_ok || query_ok
}

/// How a command-palette action ended.
pub enum CommandOutcome {
    /// The handler ran and succeeded.
    Done { action: String, message: String },
    /// No action has this id.
    UnknownAction(String),
    /// The action exists but cannot be run from here (or not now).
    NotDispatchable { action: String, reason: String },
    /// The action needs a frame and none has arrived yet.
    NoFrame,
    /// The handler ran and failed.
    Failed { action: String, message: String },
    /// The handler's task itself failed.
    Crashed(String),
}

/// HTTP status that reports a command outcome.
pub open spec fn command_status_of(o: CommandOutcome) -> u16 {
    match o {
        CommandOutcome::Done { .. } => 200,
        CommandOutcome::UnknownAction(_) => 404,
        CommandOutcome::NotDispatchable { .. } => 409,
        CommandOutcome::NoFrame => 503,
        CommandOutcome::Failed { .. } => 500,
        CommandOutcome::Crashed(_) => 500,
    }
}

/// Error code of a failed command outcome; `None` for a success and for a
/// failed task (which is reported with its message only).
pub open spec fn command_error_of(o: CommandOutcome) -> Option<Seq<char>> {
    match o {
        CommandOutcome::Done { .. } => None,
        CommandOutcome::UnknownAction(_) => Some("unknown_action"@),
        CommandOutcome::NotDispatchable { .. } => Some("not_dispatchable"@),
        CommandOutcome::NoFrame => Some("no_frame"@),
        CommandOutcome::Failed { .. } => Some("handler_failed"@),
        CommandOutcome::Crashed(_) => None,
    }
}

/// The HTTP status for a command outcome: 200 success, 404 unknown action,
/// 409 not dispatchable, 503 no frame yet, 500 failure.
pub fn command_status(o: &CommandOutcome) -> (code: u16)
    ensures
        code == command_status_of(*o),
{
    match o {
        CommandOutcome::Done { .. } => 200,
        CommandOutcome::UnknownAction(_) => 404,
        CommandOutcome::NotDispatchable { .. } => 409,
        CommandOutcome::NoFrame => 503,
        CommandOutcome::Failed { .. } => 500,
        CommandOutcome::Crashed(_) => 500,
    }
}

/// The error code a failed command is reported with.
pub fn command_error(o: &CommandOutcome) -> (e: Option<&'static str>)
    ensures
        match (e, command_error_of(*o)) {
            (Some(a), Some(b)) => a@ == b,
            (None, None) => true,
            _ => false,
        },
{
    match o {
        CommandOutcome::Done { .. } => None,
        CommandOutcome::UnknownAction(_) => Some("unknown_action"),
        CommandOutcome::NotDispatchable { .. } => Some("not_dispatchable"),
        CommandOutcome::NoFrame => Some("no_frame"),
        CommandOutcome::Failed { .. } => Some("handler_failed"),
        CommandOutcome::Crashed(_) => None,
    }
}

/// `quit` is answered with 202 before the process exits, so the reply is
/// written first.
pub fn is_quit_command(id: &str) -> (b: bool)
    ensures
        b == (id@ == "quit"@),
{
    crate::text::str_eq(id, "quit")
}

/// What `GET /api/synthetic/state` reports of the synthetic device.
pub struct SyntheticStateView {
    /// `home` or `app`.
    pub screen: &'static str,
    /// The open app's index and letter.
    pub app: Option<(u32, char)>,
    pub page: u32,
    pub app_scroll: i32,
    pub interactions: u64,
}

/// The state endpoint's view of a snapshot.
pub fn synthetic_state_view(snap: &StateSnapshot) -> (v: SyntheticStateView)
    ensures
        v.screen@ == (match snap.screen {
            Screen::Home => "home"@,
            Screen::App { .. } => "app"@,
        }),
        v.app == (match snap.screen {
            Screen::Home => None,
            Screen::App { index } => Some((index, spec_app_letter(index))),
        }),
        v.page == snap.home_page,
        v.app_scroll == snap.app_scroll,
        v.interactions == snap.interactions,
{
    let (screen, app) = match snap.screen {
        Screen::Home => ("home", None),
        Screen::App { index } => ("app", Some((index, app_letter(index)))),
    };
    SyntheticStateView {
        screen,
        app,
        page: snap.home_page,
        app_scroll: snap.app_scroll,
        interactions: snap.interactions,
    }
}

} // verus!
