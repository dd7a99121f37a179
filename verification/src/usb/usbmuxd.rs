//! The usbmuxd wire format.
//!
//! usbmuxd (localhost:27015 on Windows) multiplexes USB traffic to iOS
//! devices. Every message is a 16-byte little-endian header (total length
//! including the header, protocol version 1, message type, request tag)
//! followed by an XML property list.
use vstd::prelude::*;
use crate::text::{append_chars, dec_digits, decimal, string_from_chars};
use crate::usb::property_list::{
    as_dict, as_text, as_unsigned, dict_get, lookup, parse_plist, plist_document, text_of, unsigned_of, PlistValue,
};

verus! {

/// TCP port of the usbmuxd daemon (Apple Mobile Device Service).
pub const USBMUXD_PORT: u16 = 27015;

/// Protocol version written in every header.
pub const MUX_VERSION: u32 = 1;

/// Message type of a property-list message.
pub const MSG_PLIST: u32 = 8;

/// Size of the message header in bytes.
pub const HEADER_LEN: u32 = 16;

/// An attached iOS device as usbmuxd lists it.
#[derive(Clone, Debug)]
pub struct UsbDevice {
    pub device_id: u32,
    pub udid: String,
    pub connection_type: String,
}

/// The four fields of a usbmuxd message header.
#[derive(Clone, Copy, Debug, PartialEq, Eq, Structural)]
pub struct MuxHeader {
    pub length: u32,
    pub version: u32,
    pub msg_type: u32,
    pub tag: u32,
}

/// Little-endian bytes of a 32-bit value.
pub open spec fn le_bytes(n: u32) -> Seq<u8> {
    seq![(n % 256) as u8, ((n / 256) % 256) as u8, ((n / 65536) % 256) as u8, (n / 16777216) as u8]
}

/// The 32-bit value stored little-endian at `b[i .. i + 4]`.
pub open spec fn le_value(b: Seq<u8>, i: int) -> int {
    b[i] + 256 * b[i + 1] + 65536 * b[i + 2] + 16777216 * b[i + 3]
}

/// The 16 bytes of a header on the wire.
pub open spec fn header_bytes(h: MuxHeader) -> Seq<u8> {
    le_bytes(h.length) + le_bytes(h.version) + le_bytes(h.msg_type) + le_bytes(h.tag)
}

/// The header that 16 bytes on the wire hold.
pub open spec fn header_of(b: Seq<u8>) -> MuxHeader {
    MuxHeader {
        length: le_value(b, 0) as u32,
        version: le_value(b, 4) as u32,
        msg_type: le_value(b, 8) as u32,
        tag: le_value(b, 12) as u32,
    }
}

/// Reading back a little-endian value gives the value.
proof fn lemma_le_value(n: u32)
    ensures
        le_value(le_bytes(n), 0) == n,
{
    let q1 = n / 256;
    let q2 = q1 / 256;
    let q3 = q2 / 256;
    assert(n == 256 * q1 + n % 256);
    assert(q1 == 256 * q2 + q1 % 256);
    assert(q2 == 256 * q3 + q2 % 256);
    assert(n / 65536 == q2);
    assert(n / 16777216 == q3);
    assert(q3 < 256);
}

/// Writing back the value of four bytes gives the bytes.
proof fn lemma_le_bytes(b0: u8, b1: u8, b2: u8, b3: u8)
    ensures
        le_bytes((b0 + 256 * b1 + 65536 * b2 + 16777216 * b3) as u32) == seq![b0, b1, b2, b3],
{
    let n = (b0 + 256 * b1 + 65536 * b2 + 16777216 * b3) as u32;
    assert(n == b0 + 256 * b1 + 65536 * b2 + 16777216 * b3);
    assert(n % 256 == b0);
    assert(n / 256 == b1 + 256 * b2 + 65536 * b3);
    assert((n / 256) % 256 == b1);
    assert(n / 65536 == b2 + 256 * b3);
    assert((n / 65536) % 256 == b2);
    assert(n / 16777216 == b3);
    assert(le_bytes(n) =~= seq![b0, b1, b2, b3]);
}

/// Decoding an encoded header gives the header back.
pub proof fn lemma_header_roundtrip(h: MuxHeader)
    ensures
        header_of(header_bytes(h)) == h,
{
    let b = header_bytes(h);
    lemma_le_value(h.length);
    lemma_le_value(h.version);
    lemma_le_value(h.msg_type);
    lemma_le_value(h.tag);
    assert(b.subrange(0, 4) =~= le_bytes(h.length));
    assert(le_value(b, 0) == le_value(le_bytes(h.length), 0));
    assert(le_value(b, 4) == le_value(le_bytes(h.version), 0));
    assert(le_value(b, 8) == le_value(le_bytes(h.msg_type), 0));
    assert(le_value(b, 12) == le_value(le_bytes(h.tag), 0));
}

/// Encoding the header that 16 bytes hold gives the bytes back.
pub proof fn lemma_bytes_roundtrip(b: Seq<u8>)
    requires
        b.len() == 16,
    ensures
        header_bytes(header_of(b)) == b,
{
    lemma_le_bytes(b[0], b[1], b[2], b[3]);
    lemma_le_bytes(b[4], b[5], b[6], b[7]);
    lemma_le_bytes(b[8], b[9], b[10], b[11]);
    lemma_le_bytes(b[12], b[13], b[14], b[15]);
    assert(header_bytes(header_of(b)) =~= b);
}

/// Little-endian bytes of `n`.
fn put_le(out: &mut Vec<u8>, n: u32)
    ensures
        final(out)@ == old(out)@ + le_bytes(n),
{
    out.push((n % 256) as u8);
    out.push(((n / 256) % 256) as u8);
    out.push(((n / 65536) % 256) as u8);
    out.push((n / 16777216) as u8);
    proof {
        assert(out@ =~= old(out)@ + le_bytes(n));
    }
}

/// The 16 header bytes of `h`.
pub fn encode_header(h: &MuxHeader) -> (b: Vec<u8>)
    ensures
        b@ == header_bytes(*h),
{
    let mut b: Vec<u8> = Vec::new();
    put_le(&mut b, h.length);
    put_le(&mut b, h.version);
    put_le(&mut b, h.msg_type);
    put_le(&mut b, h.tag);
    proof {
        assert(b@ =~= header_bytes(*h));
    }
    b
}

/// The value of the four little-endian bytes at `b[i .. i + 4]`.
fn get_le(b: &[u8], i: usize) -> (n: u32)
    requires
        i + 4 <= b@.len(),
    ensures
        n == le_value(b@, i as int),
{
    b[i] as u32 + 256 * b[i + 1] as u32 + 65536 * b[i + 2] as u32 + 16777216 * b[i + 3] as u32
}

/// A framed property-list message reads back: its header decodes to the
/// header written, which announces exactly the body's length, and the
/// bytes after the header are the body.
pub proof fn lemma_frame_reads_back(body: Seq<u8>, tag: u32)
    requires
        body.len() + 16 <= u32::MAX,
    ensures
        ({
            let h = MuxHeader { length: (16 + body.len()) as u32, version: 1, msg_type: 8, tag };
            let msg = header_bytes(h) + body;
            &&& header_of(msg) == h
            &&& header_of(msg).length - 16 == body.len()
            &&& msg.subrange(16, msg.len() as int) == body
        }),
{
    let h = MuxHeader { length: (16 + body.len()) as u32, version: 1, msg_type: 8, tag };
    let msg = header_bytes(h) + body;
    lemma_header_roundtrip(h);
    assert(msg.subrange(0, 16) =~= header_bytes(h));
    assert(le_value(msg, 0) == le_value(header_bytes(h), 0));
    assert(le_value(msg, 4) == le_value(header_bytes(h), 4));
    assert(le_value(msg, 8) == le_value(header_bytes(h), 8));
    assert(le_value(msg, 12) == le_value(header_bytes(h), 12));
    assert(msg.subrange(16, msg.len() as int) =~= body);
}

/// The header that the first 16 bytes of `b` hold.
pub fn decode_header(b: &[u8]) -> (h: MuxHeader)
    requires
        b@.len() >= 16,
    ensures
        h == header_of(b@),
{
    MuxHeader { length: get_le(b, 0), version: get_le(b, 4), msg_type: get_le(b, 8), tag: get_le(b, 12) }
}

/// Number of body bytes that follow a header: its length less the 16
/// header bytes, or none when the length is shorter than a header.
pub fn body_len(h: &MuxHeader) -> (n: u32)
    ensures
        n == (if h.length >= 16 { h.length - 16 } else { 0 }),
{
    if h.length >= HEADER_LEN {
        h.length - HEADER_LEN
    } else {
        0
    }
}

/// A whole property-list message: header with request tag `tag`, then `body`.
pub fn frame_plist(body: &[u8], tag: u32) -> (msg: Vec<u8>)
    requires
        body@.len() + 16 <= u32::MAX,
    ensures
        msg@ == header_bytes(MuxHeader { length: (16 + body@.len()) as u32, version: 1, msg_type: 8, tag }) + body@,
{
    let h = MuxHeader { length: HEADER_LEN + body.len() as u32, version: MUX_VERSION, msg_type: MSG_PLIST, tag };
    let mut msg = encode_header(&h);
    let ghost head = msg@;
    let mut i: usize = 0;
    while i < body.len()
        invariant
            i <= body@.len(),
            msg@ == head + body@.subrange(0, i as int),
        decreases body@.len() - i,
    {
        msg.push(body[i]);
        proof {
            assert(msg@ =~= head + body@.subrange(0, i + 1));
        }
        i = i + 1;
    }
    proof {
        assert(body@.subrange(0, body@.len() as int) =~= body@);
    }
    msg
}

/// A port number in network byte order, as usbmuxd expects it in `Connect`.
pub fn htons(port: u16) -> (r: u32)
    ensures
        r == (port % 256) * 256 + port / 256,
{
    let lo = (port % 256) as u32;
    let hi = (port / 256) as u32;
    lo * 256 + hi
}

/// Swapping the bytes of a port twice gives the port back.
pub proof fn lemma_htons_involution(port: u16)
    ensures
        ((((port % 256) * 256 + port / 256) as u16) % 256) * 256 + (((port % 256) * 256 + port / 256) as u16) / 256 == port,
{
    let r = ((port % 256) * 256 + port / 256) as u16;
    assert((r % 256) * 256 + r / 256 == port) by (bit_vector)
        requires
            r == ((port % 256) * 256 + port / 256) as u16,
    ;
}

/// Opening of every XML property list usbmuxd is sent, up to `<dict>`.
pub const PLIST_HEAD: &'static str = "<?xml version=\"1.0\" encoding=\"UTF-8\"?>\n<!DOCTYPE plist PUBLIC \"-//Apple//DTD PLIST 1.0//EN\" \"http://www.apple.com/DTDs/PropertyList-1.0.dtd\">\n<plist version=\"1.0\">\n<dict>\n";

/// Closing of every XML property list usbmuxd is sent.
pub const PLIST_TAIL: &'static str = "</dict>\n</plist>";

/// One `<key>`/`<string>` line of a property-list dictionary.
pub open spec fn string_entry(k: Seq<char>, v: Seq<char>) -> Seq<char> {
    "    <key>"@ + k + "</key><string>"@ + v + "</string>\n"@
}

/// One `<key>`/`<integer>` line of a property-list dictionary.
pub open spec fn integer_entry(k: Seq<char>, n: nat) -> Seq<char> {
    "    <key>"@ + k + "</key><integer>"@ + dec_digits(n) + "</integer>\n"@
}

/// The `<key>`/`<string>` lines of the first `n` pairs.
pub open spec fn string_entries(pairs: Seq<(&str, &str)>, n: nat) -> Seq<char>
    decreases n,
{
    if n == 0 || n > pairs.len() {
        Seq::empty()
    } else {
        string_entries(pairs, (n - 1) as nat) + string_entry(pairs[n - 1].0@, pairs[n - 1].1@)
    }
}

/// An XML property list holding one dictionary of string values.
pub open spec fn plist_text(pairs: Seq<(&str, &str)>) -> Seq<char> {
    PLIST_HEAD@ + string_entries(pairs, pairs.len()) + PLIST_TAIL@
}

/// Append the `<key>`/`<string>` lines of `pairs`.
fn append_string_entries(out: &mut Vec<char>, pairs: &[(&str, &str)])
    ensures
        final(out)@ == old(out)@ + string_entries(pairs@, pairs@.len()),
{
    let ghost start = out@;
    let mut i: usize = 0;
    while i < pairs.len()
        invariant
            i <= pairs@.len(),
            out@ == start + string_entries(pairs@, i as nat),
        decreases pairs@.len() - i,
    {
        let (k, v) = pairs[i];
        append_chars(out, "    <key>");
        append_chars(out, k);
        append_chars(out, "</key><string>");
        append_chars(out, v);
        append_chars(out, "</string>\n");
        proof {
            assert(out@ =~= start + string_entries(pairs@, (i + 1) as nat));
        }
        i = i + 1;
    }
}

/// Append one `<key>`/`<integer>` line.
fn append_integer_entry(out: &mut Vec<char>, k: &str, n: u32)
    ensures
        final(out)@ == old(out)@ + integer_entry(k@, n as nat),
{
    append_chars(out, "    <key>");
    append_chars(out, k);
    append_chars(out, "</key><integer>");
    let digits = decimal(n as u64);
    let ghost before = out@;
    let mut i: usize = 0;
    while i < digits.len()
        invariant
            i <= digits@.len(),
            out@ == before + digits@.subrange(0, i as int),
        decreases digits@.len() - i,
    {
        out.push(digits[i]);
        proof {
            assert(out@ =~= before + digits@.subrange(0, i + 1));
        }
        i = i + 1;
    }
    proof {
        assert(digits@.subrange(0, digits@.len() as int) =~= digits@);
    }
    append_chars(out, "</integer>\n");
    proof {
        assert(out@ =~= old(out)@ + integer_entry(k@, n as nat));
    }
}

/// An XML property list with one dictionary mapping each key of `pairs`
/// to its string value, in order.
pub fn plist_xml(pairs: &[(&str, &str)]) -> (xml: String)
    ensures
        xml@ == plist_text(pairs@),
{
    let mut out: Vec<char> = Vec::new();
    append_chars(&mut out, PLIST_HEAD);
    append_string_entries(&mut out, pairs);
    append_chars(&mut out, PLIST_TAIL);
    proof {
        assert(out@ =~= plist_text(pairs@));
    }
    string_from_chars(&out)
}

/// Body of a `Connect` request: open a tunnel to TCP `port` on `device_id`
/// (the port in network byte order).
pub open spec fn connect_text(device_id: u32, port: u16) -> Seq<char> {
    PLIST_HEAD@ + string_entry("MessageType"@, "Connect"@) + string_entry("ClientVersionString"@, "ios-remote"@)
        + string_entry("ProgName"@, "ios-remote"@) + integer_entry("DeviceID"@, device_id as nat)
        + integer_entry("PortNumber"@, ((port % 256) * 256 + port / 256) as nat) + PLIST_TAIL@
}

/// The property list that asks usbmuxd to connect to `port` on a device.
pub fn connect_request(device_id: u32, port: u16) -> (xml: String)
    ensures
        xml@ == connect_text(device_id, port),
{
    let mut out: Vec<char> = Vec::new();
    append_chars(&mut out, PLIST_HEAD);
    let pairs = [("MessageType", "Connect"), ("ClientVersionString", "ios-remote"), ("ProgName", "ios-remote")];
    append_string_entries(&mut out, &pairs);
    append_integer_entry(&mut out, "DeviceID", device_id);
    append_integer_entry(&mut out, "PortNumber", htons(port));
    append_chars(&mut out, PLIST_TAIL);
    proof {
        let s = pairs@;
        assert(string_entries(s, 3) == string_entry("MessageType"@, "Connect"@) + string_entry("ClientVersionString"@, "ios-remote"@)
            + string_entry("ProgName"@, "ios-remote"@)) by {
            reveal_with_fuel(string_entries, 4);
            assert(string_entries(s, 0) =~= Seq::<char>::empty());
        }
        assert(out@ =~= connect_text(device_id, port));
    }
    string_from_chars(&out)
}

/// The property list that asks usbmuxd for the attached devices.
pub fn list_devices_request() -> (xml: String)
    ensures
        xml@ == PLIST_HEAD@ + string_entry("MessageType"@, "ListDevices"@) + string_entry("ClientVersionString"@, "ios-remote"@)
            + string_entry("ProgName"@, "ios-remote"@) + PLIST_TAIL@,
{
    let pairs = [("MessageType", "ListDevices"), ("ClientVersionString", "ios-remote"), ("ProgName", "ios-remote")];
    let xml = plist_xml(&pairs);
    proof {
        let s = pairs@;
        assert(string_entries(s, 3) == string_entry("MessageType"@, "ListDevices"@) + string_entry("ClientVersionString"@, "ios-remote"@)
            + string_entry("ProgName"@, "ios-remote"@)) by {
            reveal_with_fuel(string_entries, 4);
            assert(string_entries(s, 0) =~= Seq::<char>::empty());
        }
        assert(plist_text(s) =~= PLIST_HEAD@ + string_entry("MessageType"@, "ListDevices"@) + string_entry("ClientVersionString"@, "ios-remote"@)
            + string_entry("ProgName"@, "ios-remote"@) + PLIST_TAIL@);
    }
    xml
}

/// The device that one `DeviceList` entry describes: a missing `DeviceID`
/// reads as `0` (kept to its low 32 bits), a missing `SerialNumber` as
/// `"unknown"`, a missing `ConnectionType` as `"USB"`.
pub fn device_from_properties(device_id: Option<u64>, serial: Option<String>, connection: Option<String>) -> (d: UsbDevice)
    ensures
        d.device_id == (match device_id {
            Some(v) => v,
            None => 0,
        }) as u32,
        d.udid@ == (match serial {
            Some(s) => s@,
            None => "unknown"@,
        }),
        d.connection_type@ == (match connection {
            Some(s) => s@,
            None => "USB"@,
        }),
{
    let id: u64 = match device_id {
        Some(v) => v,
        None => 0,
    };
    let udid = match serial {
        Some(s) => s,
        None => "unknown".to_string(),
    };
    let connection_type = match connection {
        Some(s) => s,
        None => "USB".to_string(),
    };
    UsbDevice { device_id: id as u32, udid, connection_type }
}

/// Outcome of a `Connect` reply from its `Number` field: `0` opens the
/// tunnel; any other code, or a missing field (read as `999`), is a failure
/// carrying that code.
pub fn connect_result(number: Option<u64>) -> (r: Result<(), u64>)
    ensures
        r == (match number {
            Some(0) => Ok(()),
            Some(n) => Err(n),
            None => Err(999),
        }),
{
    let n: u64 = match number {
        Some(v) => v,
        None => 999,
    };
    if n == 0 {
        Ok(())
    } else {
        Err(n)
    }
}

/// The dictionary of a usbmuxd reply body: empty when the body is empty,
/// is not a property list, or is not a dictionary.
pub open spec fn mux_reply(body: Seq<u8>) -> Seq<(String, PlistValue)> {
    if body.len() == 0 {
        Seq::empty()
    } else {
        match plist_document(body) {
            Some(PlistValue::Dictionary(d)) => d@,
            _ => Seq::empty(),
        }
    }
}

/// The dictionary of a usbmuxd reply body (see `mux_reply`).
pub fn usbmuxd_reply(body: &[u8]) -> (d: Vec<(String, PlistValue)>)
    ensures
        d@ == mux_reply(body@),
{
    if body.len() == 0 {
        return Vec::new();
    }
    match parse_plist(body) {
        Ok(PlistValue::Dictionary(d)) => d,
        _ => Vec::new(),
    }
}

/// A device as its identifier, UDID and connection type.
pub open spec fn device_view(d: UsbDevice) -> (u32, Seq<char>, Seq<char>) {
    (d.device_id, d.udid@, d.connection_type@)
}

/// The device a `Properties` dictionary describes, with the defaults of
/// `device_from_properties`.
pub open spec fn device_of(p: Seq<(String, PlistValue)>) -> (u32, Seq<char>, Seq<char>) {
    (
        (match as_unsigned(dict_get(p, "DeviceID"@)) {
            Some(v) => v,
            None => 0,
        }) as u32,
        match as_text(dict_get(p, "SerialNumber"@)) {
            Some(s) => s,
            None => "unknown"@,
        },
        match as_text(dict_get(p, "ConnectionType"@)) {
            Some(s) => s,
            None => "USB"@,
        },
    )
}

/// The `Properties` dictionary of a `DeviceList` entry, when the entry is a
/// dictionary that has one.
pub open spec fn entry_properties(e: PlistValue) -> Option<Seq<(String, PlistValue)>> {
    match e {
        PlistValue::Dictionary(d) => as_dict(dict_get(d@, "Properties"@)),
        _ => None,
    }
}

/// The devices of the `DeviceList` entries that have properties, in order.
pub open spec fn devices_in(entries: Seq<PlistValue>) -> Seq<(u32, Seq<char>, Seq<char>)>
    decreases entries.len(),
{
    if entries.len() == 0 {
        Seq::empty()
    } else {
        let rest = devices_in(entries.drop_last());
        match entry_properties(entries.last()) {
            Some(p) => rest.push(device_of(p)),
            None => rest,
        }
    }
}

/// The devices a `ListDevices` reply lists: none unless it has a
/// `DeviceList` array.
pub open spec fn listed_devices(reply: Seq<(String, PlistValue)>) -> Seq<(u32, Seq<char>, Seq<char>)> {
    match dict_get(reply, "DeviceList"@) {
        Some(PlistValue::Array(a)) => devices_in(a@),
        _ => Seq::empty(),
    }
}

/// The devices of a `ListDevices` reply (see `listed_devices`).
pub fn devices_from_reply(reply: &[(String, PlistValue)]) -> (v: Vec<UsbDevice>)
    ensures
        v@.map_values(|d: UsbDevice| device_view(d)) == listed_devices(reply@),
{
    let mut v: Vec<UsbDevice> = Vec::new();
    match lookup(reply, "DeviceList") {
        Some(PlistValue::Array(a)) => {
            let mut i: usize = 0;
            while i < a.len()
                invariant
                    i <= a@.len(),
                    v@.map_values(|d: UsbDevice| device_view(d)) == devices_in(a@.take(i as int)),
                decreases a@.len() - i,
            {
                proof {
                    assert(a@.take(i as int + 1).drop_last() =~= a@.take(i as int));
                }
                let ghost before = v@;
                match &a[i] {
                    PlistValue::Dictionary(d) => match lookup(d.as_slice(), "Properties") {
                        Some(PlistValue::Dictionary(p)) => {
                            let id = unsigned_of(lookup(p.as_slice(), "DeviceID"));
                            let serial = text_of(lookup(p.as_slice(), "SerialNumber"));
                            let conn = text_of(lookup(p.as_slice(), "ConnectionType"));
                            let dev = device_from_properties(id, serial, conn);
                            v.push(dev);
                            proof {
                                assert(v@.map_values(|d: UsbDevice| device_view(d)) =~= before.map_values(
                                    |d: UsbDevice| device_view(d),
                                ).push(device_view(dev)));
                            }
                        },
                        _ => {},
                    },
                    _ => {},
                }
                i = i + 1;
            }
            proof {
                assert(a@.take(a@.len() as int) =~= a@);
            }
        },
        _ => {},
    }
    v
}

/// Outcome of a `Connect` reply (see `connect_result`), from its `Number`.
pub fn connect_outcome(reply: &[(String, PlistValue)]) -> (r: Result<(), u64>)
    ensures
        r == (match as_unsigned(dict_get(reply@, "Number"@)) {
            Some(0) => Ok(()),
            Some(n) => Err(n),
            None => Err(999),
        }),
{
    connect_result(unsigned_of(lookup(reply, "Number")))
}

} // verus!
