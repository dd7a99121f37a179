//! lockdownd: device identity, service descriptors and iOS version parsing.
use vstd::prelude::*;
use crate::usb::property_list::{
    as_bool, as_text, as_unsigned, bool_of, dict_get, encode_xml, is_string_dict, lookup, parse_plist, plist_document,
    position, reencode_xml, same_text, text_of, unsigned_of, xml_of_document, xml_plist_bytes, PlistOut,
    PlistValue,
};
use crate::text::{
    append_chars, chars_of, is_digit, parse_u32, spec_parse_u32, spec_trim, string_from_chars, trim_chars,
};

verus! {

/// Device identity read from lockdownd.
#[derive(Debug, Clone)]
pub struct DeviceInfo {
    pub name: String,
    pub model: String,
    pub ios_version: String,
    pub udid: String,
}

/// A started lockdown service: its port and whether it speaks TLS.
#[derive(Debug)]
pub struct ServiceInfo {
    pub port: u16,
    pub enable_ssl: bool,
}

/// ASCII lowercase of one character; other characters are unchanged.
pub open spec fn ascii_lower(c: char) -> char {
    if 'A' <= c <= 'Z' {
        ((c as u32) + 32) as char
    } else {
        c
    }
}

/// `t` equals `"unknown"` ignoring ASCII case.
pub open spec fn is_unknown(t: Seq<char>) -> bool {
    t.len() == 7 && forall|i: int| 0 <= i < 7 ==> ascii_lower(#[trigger] t[i]) == "unknown"@[i]
}

/// The first `n` characters of `t` are digits and the next one is not.
pub open spec fn digit_run(t: Seq<char>, n: int) -> bool {
    &&& 0 <= n <= t.len()
    &&& forall|i: int| 0 <= i < n ==> is_digit(#[trigger] t[i])
    &&& (n == t.len() || !is_digit(t[n]))
}

/// The longest prefix of `t` made of ASCII digits.
pub open spec fn digit_prefix(t: Seq<char>) -> Seq<char> {
    let n = choose|n: int| digit_run(t, n);
    t.subrange(0, n)
}

/// The major iOS version in `version`: trim it; none for empty or
/// `unknown` (any ASCII case); otherwise the leading digits as a `u32`.
pub open spec fn spec_parse_ios_major(version: Seq<char>) -> Option<u32> {
    let t = spec_trim(version);
    if t.len() == 0 || is_unknown(t) {
        None
    } else {
        spec_parse_u32(digit_prefix(t))
    }
}

fn equals_unknown(t: &Vec<char>) -> (r: bool)
    ensures
        r == is_unknown(t@),
{
    if t.len() != 7 {
        return false;
    }
    let unknown = ['u', 'n', 'k', 'n', 'o', 'w', 'n'];
    proof {
        reveal_strlit("unknown");
        assert(unknown@ =~= "unknown"@);
    }
    let mut i: usize = 0;
    while i < 7
        invariant
            i <= 7,
            t@.len() == 7,
            unknown@ == "unknown"@,
            forall|j: int| 0 <= j < i ==> ascii_lower(#[trigger] t@[j]) == unknown@[j],
        decreases 7 - i,
    {
        let c = t[i];
        let lc = if 'A' <= c && c <= 'Z' { ((c as u32) + 32) as u8 as char } else { c };
        assert(lc == ascii_lower(c)) by {
            if 'A' <= c && c <= 'Z' {
                assert(((c as u32) + 32) as u8 as char == ((c as u32) + 32) as char);
            }
        }
        if lc != unknown[i] {
            return false;
        }
        i = i + 1;
    }
    true
}

fn leading_digits(t: &Vec<char>) -> (head: Vec<char>)
    ensures
        head@ == digit_prefix(t@),
{
    let mut head: Vec<char> = Vec::new();
    let mut i: usize = 0;
    while i < t.len() && '0' <= t[i] && t[i] <= '9'
        invariant
            i <= t@.len(),
            head@ == t@.subrange(0, i as int),
            forall|j: int| 0 <= j < i ==> is_digit(#[trigger] t@[j]),
        decreases t@.len() - i,
    {
        head.push(t[i]);
        proof {
            assert(head@ =~= t@.subrange(0, i + 1));
        }
        i = i + 1;
    }
    proof {
        assert(digit_run(t@, i as int));
        let n = choose|n: int| digit_run(t@, n);
        if n < i {
            assert(is_digit(t@[n]));
        }
        if i < n {
            assert(is_digit(t@[i as int]));
        }
    }
    head
}

/// Extract the major iOS version (e.g. "26.4.1" gives 26). Tolerates
/// surrounding whitespace, pre-release suffixes ("17.0b3") and a missing
/// minor part ("18"); `None` for empty, "unknown" or unparseable input.
pub fn parse_ios_major(version: &str) -> (r: Option<u32>)
    ensures
        r == spec_parse_ios_major(version@),
{
    let chars = chars_of(version);
    let t = trim_chars(chars.as_slice());
    if t.len() == 0 || equals_unknown(&t) {
        return None;
    }
    let head = leading_digits(&t);
    parse_u32(head.as_slice())
}

/// lockdownd's port on the device, reached through a usbmuxd tunnel.
pub const LOCKDOWN_PORT: u16 = 62078;

/// Largest message body lockdownd is trusted to send.
pub const MAX_LOCKDOWN_BODY: u32 = 1_000_000;

/// Big-endian bytes of a 32-bit value.
pub open spec fn be_bytes(n: u32) -> Seq<u8> {
    seq![(n / 16777216) as u8, ((n / 65536) % 256) as u8, ((n / 256) % 256) as u8, (n % 256) as u8]
}

/// The 32-bit value stored big-endian at `b[0 .. 4]`.
pub open spec fn be_value(b: Seq<u8>) -> int {
    16777216 * b[0] + 65536 * b[1] + 256 * b[2] + b[3]
}

/// Reading back a big-endian length gives the length.
pub proof fn lemma_be_roundtrip(n: u32)
    ensures
        be_value(be_bytes(n)) == n,
{
    let q1 = n / 256;
    let q2 = q1 / 256;
    let q3 = q2 / 256;
    assert(n == 256 * q1 + n % 256);
    assert(q1 == 256 * q2 + q1 % 256);
    assert(q2 == 256 * q3 + q2 % 256);
    assert(n / 65536 == q2);
    assert(n / 16777216 == q3);
}

/// A lockdownd message reads back: its four-byte prefix announces the
/// body's length, which the reader accepts for bodies of 1 to 1,000,000
/// bytes, and the bytes after it are the body.
pub proof fn lemma_lockdown_frame_reads_back(body: Seq<u8>)
    requires
        0 < body.len() <= 1_000_000,
    ensures
        be_value(be_bytes(body.len() as u32) + body) == body.len(),
        0 < be_value(be_bytes(body.len() as u32) + body) <= 1_000_000,
        (be_bytes(body.len() as u32) + body).subrange(4, body.len() as int + 4) == body,
{
    let msg = be_bytes(body.len() as u32) + body;
    lemma_be_roundtrip(body.len() as u32);
    assert(msg.subrange(0, 4) =~= be_bytes(body.len() as u32));
    assert(be_value(msg) == be_value(be_bytes(body.len() as u32)));
    assert(msg.subrange(4, body.len() as int + 4) =~= body);
}

/// A lockdownd message: the body's length as four big-endian bytes (kept
/// to its low 32 bits), then the body.
pub fn lockdown_frame(body: &[u8]) -> (msg: Vec<u8>)
    ensures
        msg@ == be_bytes(body@.len() as u32) + body@,
{
    let n = body.len() as u32;
    let mut msg: Vec<u8> = Vec::new();
    msg.push((n / 16777216) as u8);
    msg.push(((n / 65536) % 256) as u8);
    msg.push(((n / 256) % 256) as u8);
    msg.push((n % 256) as u8);
    let ghost head = msg@;
    proof {
        assert(head =~= be_bytes(n));
    }
    let mut i: usize = 0;
    while i < body.len()
        invariant
            i <= body@.len(),
            msg@ == head + body@.subrange(0, i as int),
        decreases body@.len() - i,
    {
        msg.push(body[i]);
        proof {
            assert(msg@ =~= head + body@.subrange(0, i + 1));
        }
        i = i + 1;
    }
    proof {
        assert(body@.subrange(0, body@.len() as int) =~= body@);
    }
    msg
}

/// Body length announced by a lockdownd length prefix: accepted when it is
/// between 1 and 1,000,000 bytes, refused (with the length) otherwise.
pub fn body_length(prefix: &[u8]) -> (r: Result<u32, u32>)
    requires
        prefix@.len() >= 4,
    ensures
        r == (if 0 < be_value(prefix@) <= 1_000_000 {
            Ok::<u32, u32>(be_value(prefix@) as u32)
        } else {
            Err::<u32, u32>(be_value(prefix@) as u32)
        }),
{
    let n = 16777216 * prefix[0] as u32 + 65536 * prefix[1] as u32 + 256 * prefix[2] as u32 + prefix[3] as u32;
    if n == 0 || n > MAX_LOCKDOWN_BODY {
        Err(n)
    } else {
        Ok(n)
    }
}

/// The value read for a lockdownd key, or `default` when the device sent
/// none (or not a string).
pub open spec fn value_or(v: Option<String>, default: Seq<char>) -> Seq<char> {
    match v {
        Some(s) => s@,
        None => default,
    }
}

/// Device identity from the `DeviceName`, `ProductType`, `ProductVersion`
/// and `UniqueDeviceID` values: a missing name reads as `"iPhone"`, any
/// other missing value as `"unknown"`.
pub fn device_info_from_values(
    name: Option<String>,
    model: Option<String>,
    ios_version: Option<String>,
    udid: Option<String>,
) -> (d: DeviceInfo)
    ensures
        d.name@ == value_or(name, "iPhone"@),
        d.model@ == value_or(model, "unknown"@),
        d.ios_version@ == value_or(ios_version, "unknown"@),
        d.udid@ == value_or(udid, "unknown"@),
{
    let name = match name {
        Some(s) => s,
        None => "iPhone".to_string(),
    };
    let model = match model {
        Some(s) => s,
        None => "unknown".to_string(),
    };
    let ios_version = match ios_version {
        Some(s) => s,
        None => "unknown".to_string(),
    };
    let udid = match udid {
        Some(s) => s,
        None => "unknown".to_string(),
    };
    DeviceInfo { name, model, ios_version, udid }
}

/// The fields of a `StartService` reply that decide its outcome.
pub struct StartServiceReply {
    pub error: Option<String>,
    pub error_string: Option<String>,
    pub domain: Option<String>,
    pub port: Option<u64>,
    pub enable_ssl: Option<bool>,
}

/// Text of a refused `StartService`, absent fields shown as `<none>`.
pub open spec fn start_service_error(name: Seq<char>, reply: StartServiceReply) -> Seq<char> {
    "StartService '"@ + name + "' failed: Error="@ + value_or(reply.error, "<none>"@) + " ErrorString="@
        + value_or(reply.error_string, "<none>"@) + " (Domain="@ + value_or(reply.domain, "<none>"@) + ")"@
}

/// Append a field's text, or `<none>` when it is absent.
fn append_or_none(out: &mut Vec<char>, v: &Option<String>)
    ensures
        final(out)@ == old(out)@ + value_or(*v, "<none>"@),
{
    match v {
        Some(s) => append_chars(out, s.as_str()),
        None => append_chars(out, "<none>"),
    }
}

/// Outcome of starting `service_name`: refused when the reply carries
/// `Error` or `ErrorString`; otherwise the service's port (a missing `Port`
/// reads as `0`, kept to its low 16 bits) and whether it wants TLS (a
/// missing `EnableServiceSSL` reads as no).
pub fn service_from_reply(service_name: &str, reply: &StartServiceReply) -> (r: Result<ServiceInfo, String>)
    ensures
        r is Err <==> (reply.error is Some || reply.error_string is Some),
        r matches Err(m) ==> m@ == start_service_error(service_name@, *reply),
        r matches Ok(info) ==> info.port == (match reply.port {
            Some(p) => p,
            None => 0,
        }) as u16 && info.enable_ssl == (match reply.enable_ssl {
            Some(b) => b,
            None => false,
        }),
{
    if reply.error.is_some() || reply.error_string.is_some() {
        let mut out: Vec<char> = Vec::new();
        append_chars(&mut out, "StartService '");
        append_chars(&mut out, service_name);
        append_chars(&mut out, "' failed: Error=");
        append_or_none(&mut out, &reply.error);
        append_chars(&mut out, " ErrorString=");
        append_or_none(&mut out, &reply.error_string);
        append_chars(&mut out, " (Domain=");
        append_or_none(&mut out, &reply.domain);
        append_chars(&mut out, ")");
        proof {
            assert(out@ =~= start_service_error(service_name@, *reply));
        }
        return Err(string_from_chars(&out));
    }
    let port: u64 = match reply.port {
        Some(p) => p,
        None => 0,
    };
    let enable_ssl = match reply.enable_ssl {
        Some(b) => b,
        None => false,
    };
    Ok(ServiceInfo { port: port as u16, enable_ssl })
}

/// A `GetValue` request for `key`, in `domain` when one is given.
pub fn get_value_request(domain: Option<&str>, key: &str) -> (v: PlistOut)
    ensures
        is_string_dict(
            v,
            seq![("Request"@, "GetValue"@), ("Key"@, key@)] + match domain {
                Some(d) => seq![("Domain"@, d@)],
                None => Seq::empty(),
            },
        ),
{
    let mut d: Vec<(String, PlistOut)> = Vec::new();
    d.push(("Request".to_string(), PlistOut::String("GetValue".to_string())));
    d.push(("Key".to_string(), PlistOut::String(key.to_string())));
    if let Some(dom) = domain {
        d.push(("Domain".to_string(), PlistOut::String(dom.to_string())));
    }
    PlistOut::Dictionary(d)
}

/// A `StartService` request for `service_name`.
pub fn start_service_request(service_name: &str) -> (v: PlistOut)
    ensures
        is_string_dict(v, seq![("Request"@, "StartService"@), ("Service"@, service_name@)]),
{
    let mut d: Vec<(String, PlistOut)> = Vec::new();
    d.push(("Request".to_string(), PlistOut::String("StartService".to_string())));
    d.push(("Service".to_string(), PlistOut::String(service_name.to_string())));
    PlistOut::Dictionary(d)
}

/// The lockdownd message carrying a request: its XML property list,
/// length-prefixed (see `lockdown_frame`).
pub fn lockdown_message(req: &PlistOut) -> (r: Result<Vec<u8>, String>)
    ensures
        match (r, xml_plist_bytes(*req)) {
            (Ok(m), Some(b)) => m@ == be_bytes(b.len() as u32) + b,
            (Err(_), None) => true,
            _ => false,
        },
{
    let body = encode_xml(req)?;
    Ok(lockdown_frame(body.as_slice()))
}

/// The dictionary of a lockdownd reply body: a property list that is not a
/// dictionary reads as empty; a body that is no property list is refused.
pub fn lockdown_reply(body: &[u8]) -> (r: Result<Vec<(String, PlistValue)>, String>)
    ensures
        match plist_document(body@) {
            Some(PlistValue::Dictionary(e)) => r matches Ok(d) && d@ == e@,
            Some(_) => r matches Ok(d) && d@.len() == 0,
            None => r matches Err(m) && "Plist parse error: "@.is_prefix_of(m@),
        },
{
    match parse_plist(body) {
        Ok(PlistValue::Dictionary(d)) => Ok(d),
        Ok(_) => Ok(Vec::new()),
        Err(e) => {
            let mut out: Vec<char> = Vec::new();
            append_chars(&mut out, "Plist parse error: ");
            let ghost head = out@;
            append_chars(&mut out, e.as_str());
            proof {
                assert(out@.subrange(0, head.len() as int) =~= head);
            }
            Err(string_from_chars(&out))
        },
    }
}

/// The `Value` of a `GetValue` reply; the empty string when it has none.
pub fn reply_value(reply: Vec<(String, PlistValue)>) -> (v: PlistValue)
    ensures
        match dict_get(reply@, "Value"@) {
            Some(x) => v == x,
            None => v matches PlistValue::String(s) && s@.len() == 0,
        },
{
    match position(reply.as_slice(), "Value") {
        Some(i) => {
            let mut reply = reply;
            let (_, v) = reply.remove(i);
            v
        },
        None => {
            proof {
                reveal_strlit("");
            }
            PlistValue::String("".to_string())
        },
    }
}

/// The fields of a `StartService` reply that decide its outcome.
pub fn start_service_reply(reply: &[(String, PlistValue)]) -> (r: StartServiceReply)
    ensures
        same_text(r.error, as_text(dict_get(reply@, "Error"@))),
        same_text(r.error_string, as_text(dict_get(reply@, "ErrorString"@))),
        same_text(r.domain, as_text(dict_get(reply@, "Domain"@))),
        r.port == as_unsigned(dict_get(reply@, "Port"@)),
        r.enable_ssl == as_bool(dict_get(reply@, "EnableServiceSSL"@)),
{
    StartServiceReply {
        error: text_of(lookup(reply, "Error")),
        error_string: text_of(lookup(reply, "ErrorString")),
        domain: text_of(lookup(reply, "Domain")),
        port: unsigned_of(lookup(reply, "Port")),
        enable_ssl: bool_of(lookup(reply, "EnableServiceSSL")),
    }
}

/// A lockdownd reply re-encoded as an XML property list, for reading (the
/// diagnostics print it): `None` when the reply is not a property list or
/// cannot be written as XML.
pub fn reply_to_xml(body: &[u8]) -> (r: Option<Vec<u8>>)
    ensures
        r matches Some(x) ==> xml_of_document(body@) == Some(x@),
        r is None <==> xml_of_document(body@) is None,
{
    reencode_xml(body)
}

} // verus!
