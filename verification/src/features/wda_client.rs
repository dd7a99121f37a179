//! WebDriverAgent (WDA) requests for touch input: the session a client
//! holds, the requests it sends, and how it reads the replies. The HTTP
//! transfer itself happens outside the library.
use vstd::prelude::*;
use crate::text::{append_chars, dec_digits, decimal, string_from_chars, zero_pad};

verus! {

/// Why a WDA request failed.
#[derive(Clone, Debug)]
pub enum WdaError {
    /// Nothing answered at this URL.
    Unreachable(String),
    /// WDA answered with a failure status (or without a session id).
    BadResponse(String),
    /// The reply could not be read.
    ParseError(String),
    /// The HTTP tool is missing.
    Curl(String),
}

/// Text of each error, as shown to users.
pub open spec fn wda_error_text(e: WdaError) -> Seq<char> {
    match e {
        WdaError::Unreachable(u) => "WDA not reachable at "@ + u@
            + " \u{2014} is WebDriverAgent running and iproxy forwarded?"@,
        WdaError::BadResponse(s) => "WDA returned non-success: "@ + s@,
        WdaError::ParseError(s) => "WDA response parse failed: "@ + s@,
        WdaError::Curl(s) => "curl not available: "@ + s@,
    }
}

impl WdaError {
    /// The message shown for this error.
    pub fn message(&self) -> (m: String)
        ensures
            m@ == wda_error_text(*self),
    {
        let mut out: Vec<char> = Vec::new();
        match self {
            WdaError::Unreachable(u) => {
                append_chars(&mut out, "WDA not reachable at ");
                append_chars(&mut out, u.as_str());
                append_chars(&mut out, " \u{2014} is WebDriverAgent running and iproxy forwarded?");
            },
            WdaError::BadResponse(s) => {
                append_chars(&mut out, "WDA returned non-success: ");
                append_chars(&mut out, s.as_str());
            },
            WdaError::ParseError(s) => {
                append_chars(&mut out, "WDA response parse failed: ");
                append_chars(&mut out, s.as_str());
            },
            WdaError::Curl(s) => {
                append_chars(&mut out, "curl not available: ");
                append_chars(&mut out, s.as_str());
            },
        }
        proof {
            assert(out@ =~= wda_error_text(*self));
        }
        string_from_chars(&out)
    }
}

/// A request to send: the path below the base URL and the JSON body.
pub struct WdaRequest {
    pub path: String,
    pub body: String,
}

/// A touch gesture to send to WDA, in points.
pub enum WdaGesture {
    Tap { x: u32, y: u32 },
    Swipe { x1: u32, y1: u32, x2: u32, y2: u32, duration_ms: u64 },
    LongPress { x: u32, y: u32, duration_ms: u64 },
}

/// What a client sends next for a gesture: a new session first when it
/// holds none, else the gesture itself.
pub enum WdaStep {
    /// Create a session, then ask again.
    CreateSession(WdaRequest),
    /// Send the gesture; nothing follows.
    Send(WdaRequest),
}

/// The body that asks WDA for a new session.
pub open spec fn session_body() -> Seq<char> {
    "{\"capabilities\":{\"alwaysMatch\":{}}}"@
}

/// Path below the base URL of gesture `g` in `session`.
pub open spec fn gesture_path(session: Seq<char>, g: WdaGesture) -> Seq<char> {
    "/session/"@ + session + match g {
        WdaGesture::Tap { .. } => "/wda/tap/0"@,
        WdaGesture::Swipe { .. } => "/wda/dragfromtoforduration"@,
        WdaGesture::LongPress { .. } => "/wda/touchAndHold"@,
    }
}

/// JSON body of gesture `g`.
pub open spec fn gesture_body(g: WdaGesture) -> Seq<char> {
    match g {
        WdaGesture::Tap { x, y } => tap_body(x, y),
        WdaGesture::Swipe { x1, y1, x2, y2, duration_ms } => swipe_body(x1, y1, x2, y2, duration_ms),
        WdaGesture::LongPress { x, y, duration_ms } => long_press_body(x, y, duration_ms),
    }
}

/// A WDA client: the base URL and the session it holds, if any.
pub struct WdaClient {
    base_url: String,
    session: Option<String>,
}

/// A duration in milliseconds written as seconds, the way a float prints
/// it: whole seconds, then the fraction without trailing zeros, if any.
pub open spec fn seconds_text(ms: nat) -> Seq<char> {
    let whole = dec_digits(ms / 1000);
    let frac = ms % 1000;
    if frac == 0 {
        whole
    } else if frac % 100 == 0 {
        whole + seq!['.'] + dec_digits(frac / 100)
    } else if frac % 10 == 0 {
        whole + seq!['.'] + zero_pad(dec_digits(frac / 10), 2)
    } else {
        whole + seq!['.'] + zero_pad(dec_digits(frac), 3)
    }
}

/// Body of a tap at `(x, y)`.
pub open spec fn tap_body(x: u32, y: u32) -> Seq<char> {
    "{\"x\":"@ + dec_digits(x as nat) + ",\"y\":"@ + dec_digits(y as nat) + "}"@
}

/// Body of a drag from `(x1, y1)` to `(x2, y2)` over `ms` milliseconds.
pub open spec fn swipe_body(x1: u32, y1: u32, x2: u32, y2: u32, ms: u64) -> Seq<char> {
    "{\"fromX\":"@ + dec_digits(x1 as nat) + ",\"fromY\":"@ + dec_digits(y1 as nat) + ",\"toX\":"@ + dec_digits(
        x2 as nat,
    ) + ",\"toY\":"@ + dec_digits(y2 as nat) + ",\"duration\":"@ + seconds_text(ms as nat) + "}"@
}

/// Body of a long press at `(x, y)` for `ms` milliseconds.
pub open spec fn long_press_body(x: u32, y: u32, ms: u64) -> Seq<char> {
    "{\"x\":"@ + dec_digits(x as nat) + ",\"y\":"@ + dec_digits(y as nat) + ",\"duration\":"@ + seconds_text(ms as nat)
        + "}"@
}

/// Append the decimal digits of `n`.
fn append_decimal(out: &mut Vec<char>, n: u64)
    ensures
        final(out)@ == old(out)@ + dec_digits(n as nat),
{
    let d = decimal(n);
    let ghost start = out@;
    let mut i: usize = 0;
    while i < d.len()
        invariant
            i <= d@.len(),
            out@ == start + d@.subrange(0, i as int),
        decreases d@.len() - i,
    {
        out.push(d[i]);
        proof {
            assert(out@ =~= start + d@.subrange(0, i + 1));
        }
        i = i + 1;
    }
    proof {
        assert(d@.subrange(0, d@.len() as int) =~= d@);
    }
}

/// Append `ms` milliseconds written as seconds.
fn append_seconds(out: &mut Vec<char>, ms: u64)
    ensures
        final(out)@ == old(out)@ + seconds_text(ms as nat),
{
    append_decimal(out, ms / 1000);
    let frac = ms % 1000;
    if frac != 0 {
        out.push('.');
        let (digits, width): (u64, usize) = if frac % 100 == 0 {
            (frac / 100, 1)
        } else if frac % 10 == 0 {
            (frac / 10, 2)
        } else {
            (frac, 3)
        };
        let padded = crate::text::decimal_padded(digits, width);
        let ghost start = out@;
        let mut i: usize = 0;
        while i < padded.len()
            invariant
                i <= padded@.len(),
                out@ == start + padded@.subrange(0, i as int),
            decreases padded@.len() - i,
        {
            out.push(padded[i]);
            proof {
                assert(out@ =~= start + padded@.subrange(0, i + 1));
            }
            i = i + 1;
        }
        proof {
            assert(padded@.subrange(0, padded@.len() as int) =~= padded@);
            if frac % 100 == 0 {
                reveal_with_fuel(crate::text::pow10, 2);
                crate::text::lemma_dec_digits_len(digits as nat, 1);
                assert(zero_pad(dec_digits(digits as nat), 1) == dec_digits(digits as nat));
            }
        }
    }
    proof {
        assert(out@ =~= old(out)@ + seconds_text(ms as nat));
    }
}

impl WdaClient {
    /// The base URL requests go to.
    pub closed spec fn spec_base_url(&self) -> Seq<char> {
        self.base_url@
    }

    /// The session id the client holds, if any.
    pub closed spec fn spec_session(&self) -> Option<Seq<char>> {
        match self.session {
            Some(s) => Some(s@),
            None => None,
        }
    }

    /// A client for `base_url` (e.g. `http://127.0.0.1:8100`), without a
    /// session yet.
    pub fn new(base_url: String) -> (c: Self)
        ensures
            c.spec_base_url() == base_url@,
            c.spec_session() is None,
    {
        WdaClient { base_url, session: None }
    }

    /// The base URL.
    pub fn base_url(&self) -> (u: &str)
        ensures
            u@ == self.spec_base_url(),
    {
        self.base_url.as_str()
    }

    /// The session id, if one was created.
    pub fn session_id(&self) -> (s: Option<&str>)
        ensures
            match (s, self.spec_session()) {
                (Some(a), Some(b)) => a@ == b,
                (None, None) => true,
                _ => false,
            },
    {
        match &self.session {
            Some(s) => Some(s.as_str()),
            None => None,
        }
    }

    /// The full URL of `path`.
    pub fn url(&self, path: &str) -> (u: String)
        ensures
            u@ == self.spec_base_url() + path@,
    {
        let mut out: Vec<char> = Vec::new();
        append_chars(&mut out, self.base_url.as_str());
        append_chars(&mut out, path);
        string_from_chars(&out)
    }

    /// Record the session id read from a `/session` reply: the top-level
    /// `sessionId`, else the one inside `value`. Without either the reply
    /// is a failure carrying its body.
    pub fn accept_session(&mut self, top: Option<String>, nested: Option<String>, reply: &str) -> (r: Result<String, WdaError>)
        ensures
            match (top, nested) {
                (Some(t), _) => r matches Ok(id) && id@ == t@ && final(self).spec_session() == Some(t@),
                (None, Some(n)) => r matches Ok(id) && id@ == n@ && final(self).spec_session() == Some(n@),
                (None, None) => r matches Err(WdaError::BadResponse(b)) && b@ == reply@ && final(self).spec_session()
                    == old(self).spec_session(),
            },
            final(self).spec_base_url() == old(self).spec_base_url(),
    {
        let id = match top {
            Some(t) => t,
            None => match nested {
                Some(n) => n,
                None => {
                    return Err(WdaError::BadResponse(reply.to_string()));
                },
            },
        };
        let copy = id.clone();
        self.session = Some(id);
        Ok(copy)
    }

    /// Outcome of a request to `path` answered with HTTP `status` and
    /// `body`: a 2xx status yields the body; anything else is a failure
    /// naming the status, URL and trimmed body. A 404 also drops the session,
    /// since WDA forgets sessions when it restarts.
    pub fn accept_reply(&mut self, path: &str, status: u16, body: String, trimmed_body: &str) -> (r: Result<String, WdaError>)
        ensures
            200 <= status < 300 ==> (r matches Ok(b) && b@ == body@ && final(self).spec_session() == old(self).spec_session()),
            !(200 <= status < 300) ==> (r matches Err(WdaError::BadResponse(m)) && m@ == "HTTP "@ + dec_digits(status as nat)
                + " from "@ + old(self).spec_base_url() + path@ + ": "@ + trimmed_body@),
            status == 404 ==> final(self).spec_session() is None,
            !(200 <= status < 300) && status != 404 ==> final(self).spec_session() == old(self).spec_session(),
            final(self).spec_base_url() == old(self).spec_base_url(),
    {
        if 200 <= status && status < 300 {
            return Ok(body);
        }
        if status == 404 {
            self.session = None;
        }
        let mut out: Vec<char> = Vec::new();
        append_chars(&mut out, "HTTP ");
        append_decimal(&mut out, status as u64);
        append_chars(&mut out, " from ");
        append_chars(&mut out, self.base_url.as_str());
        append_chars(&mut out, path);
        append_chars(&mut out, ": ");
        append_chars(&mut out, trimmed_body);
        Err(WdaError::BadResponse(string_from_chars(&out)))
    }

    /// The request that taps at `(x, y)` (in points) in `session`.
    pub fn tap(&self, session: &str, x: u32, y: u32) -> (r: WdaRequest)
        ensures
            r.path@ == "/session/"@ + session@ + "/wda/tap/0"@,
            r.body@ == tap_body(x, y),
    {
        let mut p: Vec<char> = Vec::new();
        append_chars(&mut p, "/session/");
        append_chars(&mut p, session);
        append_chars(&mut p, "/wda/tap/0");
        let mut b: Vec<char> = Vec::new();
        append_chars(&mut b, "{\"x\":");
        append_decimal(&mut b, x as u64);
        append_chars(&mut b, ",\"y\":");
        append_decimal(&mut b, y as u64);
        append_chars(&mut b, "}");
        WdaRequest { path: string_from_chars(&p), body: string_from_chars(&b) }
    }

    /// The request that drags from `(x1, y1)` to `(x2, y2)` over
    /// `duration_ms` in `session`.
    pub fn swipe(&self, session: &str, x1: u32, y1: u32, x2: u32, y2: u32, duration_ms: u64) -> (r: WdaRequest)
        ensures
            r.path@ == "/session/"@ + session@ + "/wda/dragfromtoforduration"@,
            r.body@ == swipe_body(x1, y1, x2, y2, duration_ms),
    {
        let mut p: Vec<char> = Vec::new();
        append_chars(&mut p, "/session/");
        append_chars(&mut p, session);
        append_chars(&mut p, "/wda/dragfromtoforduration");
        let mut b: Vec<char> = Vec::new();
        append_chars(&mut b, "{\"fromX\":");
        append_decimal(&mut b, x1 as u64);
        append_chars(&mut b, ",\"fromY\":");
        append_decimal(&mut b, y1 as u64);
        append_chars(&mut b, ",\"toX\":");
        append_decimal(&mut b, x2 as u64);
        append_chars(&mut b, ",\"toY\":");
        append_decimal(&mut b, y2 as u64);
        append_chars(&mut b, ",\"duration\":");
        append_seconds(&mut b, duration_ms);
        append_chars(&mut b, "}");
        WdaRequest { path: string_from_chars(&p), body: string_from_chars(&b) }
    }

    /// The request that presses at `(x, y)` for `duration_ms` in `session`.
    pub fn long_press(&self, session: &str, x: u32, y: u32, duration_ms: u64) -> (r: WdaRequest)
        ensures
            r.path@ == "/session/"@ + session@ + "/wda/touchAndHold"@,
            r.body@ == long_press_body(x, y, duration_ms),
    {
        let mut p: Vec<char> = Vec::new();
        append_chars(&mut p, "/session/");
        append_chars(&mut p, session);
        append_chars(&mut p, "/wda/touchAndHold");
        let mut b: Vec<char> = Vec::new();
        append_chars(&mut b, "{\"x\":");
        append_decimal(&mut b, x as u64);
        append_chars(&mut b, ",\"y\":");
        append_decimal(&mut b, y as u64);
        append_chars(&mut b, ",\"duration\":");
        append_seconds(&mut b, duration_ms);
        append_chars(&mut b, "}");
        WdaRequest { path: string_from_chars(&p), body: string_from_chars(&b) }
    }

    /// What to send next for gesture `g`: without a session, the request
    /// that creates one (POST `/session`); with session `s`, the gesture's
    /// own request in `s`. So the first gesture of a new client first
    /// creates a session.
    pub fn next_step(&self, g: &WdaGesture) -> (r: WdaStep)
        ensures
            match self.spec_session() {
                None => r matches WdaStep::CreateSession(q) && q.path@ == "/session"@ && q.body@ == session_body(),
                Some(s) => r matches WdaStep::Send(q) && q.path@ == gesture_path(s, *g) && q.body@ == gesture_body(*g),
            },
    {
        match &self.session {
            None => {
                let mut p: Vec<char> = Vec::new();
                append_chars(&mut p, "/session");
                let mut b: Vec<char> = Vec::new();
                append_chars(&mut b, "{\"capabilities\":{\"alwaysMatch\":{}}}");
                WdaStep::CreateSession(WdaRequest { path: string_from_chars(&p), body: string_from_chars(&b) })
            },
            Some(s) => {
                let q = match g {
                    WdaGesture::Tap { x, y } => self.tap(s.as_str(), *x, *y),
                    WdaGesture::Swipe { x1, y1, x2, y2, duration_ms } => self.swipe(s.as_str(), *x1, *y1, *x2, *y2, *duration_ms),
                    WdaGesture::LongPress { x, y, duration_ms } => self.long_press(s.as_str(), *x, *y, *duration_ms),
                };
                WdaStep::Send(q)
            },
        }
    }
}

} // verus!
