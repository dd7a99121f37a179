//! Property lists exchanged with the device: the values read from replies,
//! the messages sent, and the `plist` crate's reading and writing of them.
use vstd::prelude::*;
use crate::text::str_eq;

verus! {

/// A property-list value as the protocol code reads it. Integers are kept
/// as their value when it is not negative (what the protocol reads of
/// them); dates, reals and UIDs, which it never reads, are `Other`.
#[derive(Debug)]
pub enum PlistValue {
    String(String),
    Integer(Option<u64>),
    Boolean(bool),
    Data(Vec<u8>),
    Array(Vec<PlistValue>),
    Dictionary(Vec<(String, PlistValue)>),
    Other,
}

/// A property-list value sent to the device.
#[derive(Debug)]
pub enum PlistOut {
    String(String),
    Integer(u64),
    Array(Vec<PlistOut>),
    Dictionary(Vec<(String, PlistOut)>),
}

#[verifier::external_type_specification]
#[verifier::external_body]
pub struct ExPlistValue(plist::Value);

/// What `plist::Value::from_reader` reads from `body` (any of the XML,
/// binary and ASCII encodings it detects); `None` when it reports an error.
pub uninterp spec fn plist_document(body: Seq<u8>) -> Option<PlistValue>;

/// The bytes `plist::Value::to_writer_xml` writes for `v`; `None` when it
/// reports an error.
pub uninterp spec fn xml_plist_bytes(v: PlistOut) -> Option<Seq<u8>>;

/// The XML property list that `plist::Value::to_writer_xml` writes for the
/// document `plist::Value::from_reader` reads from `body`, every value kept
/// as read (dates, reals and UIDs included); `None` when either reports an
/// error.
pub uninterp spec fn xml_of_document(body: Seq<u8>) -> Option<Seq<u8>>;

/// The bytes `plist::Value::to_writer_binary` writes for `v`; `None` when
/// it reports an error.
pub uninterp spec fn binary_plist_bytes(v: PlistOut) -> Option<Seq<u8>>;

/// A `plist::Value` as a `PlistValue`, variant by variant (integers through
/// `plist::Integer::as_unsigned`; dates, reals and UIDs as `Other`). No
/// contract: it runs only inside `parse_plist`, whose contract names the
/// whole outcome.
#[verifier::external_body]
fn value_of(v: plist::Value) -> PlistValue {
    match v {
        plist::Value::String(s) => PlistValue::String(s),
        plist::Value::Integer(i) => PlistValue::Integer(i.as_unsigned()),
        plist::Value::Boolean(b) => PlistValue::Boolean(b),
        plist::Value::Data(d) => PlistValue::Data(d),
        plist::Value::Array(a) => PlistValue::Array(a.into_iter().map(value_of).collect()),
        plist::Value::Dictionary(d) => PlistValue::Dictionary(d.into_iter().map(|(k, x)| (k, value_of(x))).collect()),
        _ => PlistValue::Other,
    }
}

/// A `PlistOut` as a `plist::Value`, variant by variant (dictionary entries
/// keep their order; integers through `plist::Integer::from`). No contract:
/// it runs only inside `encode_xml` and `encode_binary`, whose contracts
/// name the whole outcome.
#[verifier::external_body]
fn plist_of(v: &PlistOut) -> plist::Value {
    match v {
        PlistOut::String(s) => plist::Value::String(s.clone()),
        PlistOut::Integer(n) => plist::Value::Integer((*n).into()),
        PlistOut::Array(a) => plist::Value::Array(a.iter().map(plist_of).collect()),
        PlistOut::Dictionary(d) => plist::Value::Dictionary(d.iter().map(|(k, x)| (k.clone(), plist_of(x))).collect()),
    }
}

/// `plist::Value::from_reader` on the bytes, converted by `value_of`. The
/// contract names the outcome, a function of the bytes alone; the error
/// text is not described.
#[verifier::external_body]
pub(crate) fn parse_plist(body: &[u8]) -> (r: Result<PlistValue, String>)
    ensures
        match r {
            Ok(v) => plist_document(body@) == Some(v),
            Err(_) => plist_document(body@) is None,
        },
{
    plist::Value::from_reader(std::io::Cursor::new(body)).map(value_of).map_err(|e| e.to_string())
}

/// `plist::Value::to_writer_xml` into a buffer, after `plist_of`. The
/// contract names the outcome; the error text is not described.
#[verifier::external_body]
pub(crate) fn encode_xml(v: &PlistOut) -> (r: Result<Vec<u8>, String>)
    ensures
        match r {
            Ok(b) => xml_plist_bytes(*v) == Some(b@),
            Err(_) => xml_plist_bytes(*v) is None,
        },
{
    let mut out = Vec::new();
    plist_of(v).to_writer_xml(&mut out).map_err(|e| e.to_string())?;
    Ok(out)
}

/// `plist::Value::from_reader` on the bytes, then `to_writer_xml` of the
/// value read into a buffer: the document re-encoded as XML, with nothing
/// converted on the way. The contract names the outcome, a function of the
/// bytes alone.
#[verifier::external_body]
pub(crate) fn reencode_xml(body: &[u8]) -> (r: Option<Vec<u8>>)
    ensures
        r matches Some(x) ==> xml_of_document(body@) == Some(x@),
        r is None <==> xml_of_document(body@) is None,
{
    let value = plist::Value::from_reader(std::io::Cursor::new(body)).ok()?;
    let mut out = Vec::new();
    value.to_writer_xml(&mut out).ok()?;
    Some(out)
}

/// `plist::Value::to_writer_binary` into a buffer, after `plist_of`. The
/// contract names the outcome; the error text is not described.
#[verifier::external_body]
pub(crate) fn encode_binary(v: &PlistOut) -> (r: Result<Vec<u8>, String>)
    ensures
        match r {
            Ok(b) => binary_plist_bytes(*v) == Some(b@),
            Err(_) => binary_plist_bytes(*v) is None,
        },
{
    let mut out = Vec::new();
    plist_of(v).to_writer_binary(&mut out).map_err(|e| e.to_string())?;
    Ok(out)
}

/// The value of the first entry of `d` under `key`.
pub open spec fn dict_get(d: Seq<(String, PlistValue)>, key: Seq<char>) -> Option<PlistValue>
    decreases d.len(),
{
    if d.len() == 0 {
        None
    } else if d[0].0@ == key {
        Some(d[0].1)
    } else {
        dict_get(d.drop_first(), key)
    }
}

/// The entries of a dictionary value.
pub open spec fn as_dict(v: Option<PlistValue>) -> Option<Seq<(String, PlistValue)>> {
    match v {
        Some(PlistValue::Dictionary(d)) => Some(d@),
        _ => None,
    }
}

/// The text of a string value.
pub open spec fn as_text(v: Option<PlistValue>) -> Option<Seq<char>> {
    match v {
        Some(PlistValue::String(s)) => Some(s@),
        _ => None,
    }
}

/// The value of a non-negative integer.
pub open spec fn as_unsigned(v: Option<PlistValue>) -> Option<u64> {
    match v {
        Some(PlistValue::Integer(n)) => n,
        _ => None,
    }
}

/// The value of a boolean.
pub open spec fn as_bool(v: Option<PlistValue>) -> Option<bool> {
    match v {
        Some(PlistValue::Boolean(b)) => Some(b),
        _ => None,
    }
}

/// The value behind an optional reference.
pub open spec fn owned(v: Option<&PlistValue>) -> Option<PlistValue> {
    match v {
        Some(x) => Some(*x),
        None => None,
    }
}

/// The value under `key` in a dictionary's entries.
pub fn lookup<'a>(d: &'a [(String, PlistValue)], key: &str) -> (r: Option<&'a PlistValue>)
    ensures
        match r {
            Some(v) => dict_get(d@, key@) == Some(*v),
            None => dict_get(d@, key@) is None,
        },
{
    let mut i: usize = 0;
    proof {
        assert(d@.subrange(0, d@.len() as int) =~= d@);
    }
    while i < d.len()
        invariant
            i <= d@.len(),
            dict_get(d@, key@) == dict_get(d@.subrange(i as int, d@.len() as int), key@),
        decreases d@.len() - i,
    {
        proof {
            assert(d@.subrange(i as int, d@.len() as int).drop_first() =~= d@.subrange(i as int + 1, d@.len() as int));
        }
        if str_eq(d[i].0.as_str(), key) {
            return Some(&d[i].1);
        }
        i = i + 1;
    }
    None
}

/// Where the value under `key` stands in a dictionary's entries.
pub fn position(d: &[(String, PlistValue)], key: &str) -> (r: Option<usize>)
    ensures
        match r {
            Some(i) => i < d@.len() && d@[i as int].0@ == key@ && dict_get(d@, key@) == Some(d@[i as int].1),
            None => dict_get(d@, key@) is None,
        },
{
    let mut i: usize = 0;
    proof {
        assert(d@.subrange(0, d@.len() as int) =~= d@);
    }
    while i < d.len()
        invariant
            i <= d@.len(),
            dict_get(d@, key@) == dict_get(d@.subrange(i as int, d@.len() as int), key@),
        decreases d@.len() - i,
    {
        proof {
            assert(d@.subrange(i as int, d@.len() as int).drop_first() =~= d@.subrange(i as int + 1, d@.len() as int));
        }
        if str_eq(d[i].0.as_str(), key) {
            return Some(i);
        }
        i = i + 1;
    }
    None
}

/// The text of a string value, if it is one.
pub fn text_of(v: Option<&PlistValue>) -> (r: Option<String>)
    ensures
        match r {
            Some(s) => as_text(owned(v)) == Some(s@),
            None => as_text(owned(v)) is None,
        },
{
    match v {
        Some(PlistValue::String(s)) => Some(s.clone()),
        _ => None,
    }
}

/// Whether an optional string holds the given optional text.
pub open spec fn same_text(s: Option<String>, t: Option<Seq<char>>) -> bool {
    match (s, t) {
        (Some(a), Some(b)) => a@ == b,
        (None, None) => true,
        _ => false,
    }
}

/// The value of a non-negative integer, if it is one.
pub fn unsigned_of(v: Option<&PlistValue>) -> (r: Option<u64>)
    ensures
        r == as_unsigned(owned(v)),
{
    match v {
        Some(PlistValue::Integer(n)) => *n,
        _ => None,
    }
}

/// The value of a boolean, if it is one.
pub fn bool_of(v: Option<&PlistValue>) -> (r: Option<bool>)
    ensures
        r == as_bool(owned(v)),
{
    match v {
        Some(PlistValue::Boolean(b)) => Some(*b),
        _ => None,
    }
}

/// Whether an outgoing value is the dictionary of the given string
/// entries, in order.
pub open spec fn is_string_dict(v: PlistOut, pairs: Seq<(Seq<char>, Seq<char>)>) -> bool {
    match v {
        PlistOut::Dictionary(d) => d@.len() == pairs.len() && forall|i: int|
            0 <= i < pairs.len() ==> #[trigger] d@[i].0@ == pairs[i].0 && (d@[i].1 matches PlistOut::String(s) && s@
                == pairs[i].1),
        _ => false,
    }
}

/// The dictionary of the given string entries, in order.
pub fn string_dictionary(pairs: &[(&str, &str)]) -> (v: PlistOut)
    ensures
        is_string_dict(v, pairs@.map_values(|p: (&str, &str)| (p.0@, p.1@))),
{
    let mut d: Vec<(String, PlistOut)> = Vec::new();
    let mut i: usize = 0;
    while i < pairs.len()
        invariant
            i <= pairs@.len(),
            d@.len() == i,
            forall|j: int|
                0 <= j < i ==> #[trigger] d@[j].0@ == pairs@[j].0@ && (d@[j].1 matches PlistOut::String(s) && s@
                    == pairs@[j].1@),
        decreases pairs@.len() - i,
    {
        let (k, x) = pairs[i];
        d.push((k.to_string(), PlistOut::String(x.to_string())));
        i = i + 1;
    }
    PlistOut::Dictionary(d)
}

} // verus!
