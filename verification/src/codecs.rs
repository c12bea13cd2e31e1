//! The outside codecs the library calls: CBOR (sk-cbor), JSON (serde_json) and base64.
//!
//! Each wrapper below names what the outside function computes with an uninterpreted spec
//! function of plain values, and states the few facts of it that the library relies on.
use vstd::prelude::*;
use crate::values::{CborValue, CborSimple, SpecCbor, JsonValue, JsonNumber, SpecJson};
use crate::porters::{cbor_encodable, cbor_plain, cbor_negatives_valid};

verus! {

#[verifier::external_type_specification]
#[verifier::external_body]
pub struct ExOutsideCborValue(sk_cbor::Value);

#[verifier::external_type_specification]
#[verifier::external_body]
pub struct ExOutsideCborSimpleValue(sk_cbor::SimpleValue);

#[verifier::external_type_specification]
#[verifier::external_body]
pub struct ExOutsideJsonValue(serde_json::Value);

/// The value that `sk_cbor::read` decodes from some bytes, if they hold exactly one well-formed
/// CBOR data item.
pub uninterp spec fn cbor_decoding(bytes: Seq<u8>) -> Option<SpecCbor>;

/// The bytes that `sk_cbor::write` encodes a value into, if it accepts the value.
pub uninterp spec fn cbor_encoding(v: SpecCbor) -> Option<Seq<u8>>;

/// The value that `serde_json::from_str` parses from a text, if it is valid JSON.
pub uninterp spec fn json_text_decoding(text: Seq<char>) -> Option<SpecJson>;

/// The value that `serde_json::from_slice` parses from some bytes, if they are valid JSON.
pub uninterp spec fn json_bytes_decoding(bytes: Seq<u8>) -> Option<SpecJson>;

/// The symbol of the standard base64 alphabet for a six-bit value: `A`-`Z`, `a`-`z`, `0`-`9`,
/// `+` and `/`.
pub open spec fn base64_symbol(n: int) -> char {
    if n < 26 {
        (65 + n) as char
    } else if n < 52 {
        (97 + n - 26) as char
    } else if n < 62 {
        (48 + n - 52) as char
    } else if n == 62 {
        '+'
    } else {
        '/'
    }
}

/// The standard base64 text of some bytes: each group of three bytes becomes four symbols of six
/// bits each, and a last group of one or two bytes is completed with zero bits and `=` padding.
pub open spec fn spec_base64_encode(b: Seq<u8>) -> Seq<char>
    decreases b.len(),
{
    if b.len() == 0 {
        Seq::empty()
    } else {
        let b0: int = b[0] as int;
        let b1: int = if b.len() > 1 { b[1] as int } else { 0 };
        let b2: int = if b.len() > 2 { b[2] as int } else { 0 };
        let group = seq![
            base64_symbol(b0 / 4),
            base64_symbol((b0 % 4) * 16 + b1 / 16),
            if b.len() > 1 { base64_symbol((b1 % 16) * 4 + b2 / 64) } else { '=' },
            if b.len() > 2 { base64_symbol(b2 % 64) } else { '=' },
        ];
        if b.len() <= 3 { group } else { group + spec_base64_encode(b.subrange(3, b.len() as int)) }
    }
}

/// The bytes that `base64::decode` reads from a text, if it accepts it. Besides the padded texts
/// of [`spec_base64_encode`], the decoder of base64 0.13 accepts texts without their padding and
/// rejects some misplaced padding by rules tied to its eight-symbol chunks; which texts it accepts
/// is therefore not written out here.
pub uninterp spec fn base64_decoding(text: Seq<char>) -> Option<Seq<u8>>;

/// Converts a simple value of sk-cbor into the library's, one for one.
#[verifier::external_body]
fn simple_value_from_outside(s: sk_cbor::SimpleValue) -> CborSimple {
    match s {
        sk_cbor::SimpleValue::FalseValue => CborSimple::FalseValue,
        sk_cbor::SimpleValue::TrueValue => CborSimple::TrueValue,
        sk_cbor::SimpleValue::NullValue => CborSimple::NullValue,
        sk_cbor::SimpleValue::Undefined => CborSimple::Undefined,
    }
}

/// Converts a simple value of the library into sk-cbor's, one for one.
#[verifier::external_body]
fn simple_value_to_outside(s: CborSimple) -> sk_cbor::SimpleValue {
    match s {
        CborSimple::FalseValue => sk_cbor::SimpleValue::FalseValue,
        CborSimple::TrueValue => sk_cbor::SimpleValue::TrueValue,
        CborSimple::NullValue => sk_cbor::SimpleValue::NullValue,
        CborSimple::Undefined => sk_cbor::SimpleValue::Undefined,
    }
}

/// Converts a value of sk-cbor into the library's CBOR value, one for one, keeping the order of
/// array elements and map entries.
#[verifier::external_body]
fn cbor_value_from_outside(v: sk_cbor::Value) -> CborValue {
    match v {
        sk_cbor::Value::Unsigned(u) => CborValue::Unsigned(u),
        sk_cbor::Value::Negative(n) => CborValue::Negative(n),
        sk_cbor::Value::ByteString(b) => CborValue::ByteString(b),
        sk_cbor::Value::TextString(t) => CborValue::TextString(t),
        sk_cbor::Value::Array(a) => CborValue::Array(a.into_iter().map(cbor_value_from_outside).collect()),
        sk_cbor::Value::Map(m) => CborValue::Mapping(
            m.into_iter().map(|(k, v)| (cbor_value_from_outside(k), cbor_value_from_outside(v))).collect()),
        sk_cbor::Value::Tag(t, b) => CborValue::Tag(t, Box::new(cbor_value_from_outside(*b))),
        sk_cbor::Value::Simple(s) => CborValue::Simple(simple_value_from_outside(s)),
    }
}

/// Converts a CBOR value of the library into sk-cbor's, one for one, keeping the order of array
/// elements and map entries.
#[verifier::external_body]
fn cbor_value_to_outside(v: CborValue) -> sk_cbor::Value {
    match v {
        CborValue::Unsigned(u) => sk_cbor::Value::Unsigned(u),
        CborValue::Negative(n) => sk_cbor::Value::Negative(n),
        CborValue::ByteString(b) => sk_cbor::Value::ByteString(b),
        CborValue::TextString(t) => sk_cbor::Value::TextString(t),
        CborValue::Array(a) => sk_cbor::Value::Array(a.into_iter().map(cbor_value_to_outside).collect()),
        CborValue::Mapping(m) => sk_cbor::Value::Map(
            m.into_iter().map(|(k, v)| (cbor_value_to_outside(k), cbor_value_to_outside(v))).collect()),
        CborValue::Tag(t, b) => sk_cbor::Value::Tag(t, Box::new(cbor_value_to_outside(*b))),
        CborValue::Simple(s) => sk_cbor::Value::Simple(simple_value_to_outside(s)),
    }
}

/// Converts a JSON value of serde_json into the library's, one for one: a number is read as an
/// unsigned integer where `as_u64` gives one, else as a signed one where `as_i64` gives one,
/// else as a float; object members keep the order of the map.
#[verifier::external_body]
fn json_value_from_outside(v: serde_json::Value) -> JsonValue {
    match v {
        serde_json::Value::Null => JsonValue::Null,
        serde_json::Value::Bool(b) => JsonValue::Bool(b),
        serde_json::Value::Number(n) => JsonValue::Number(match (n.as_u64(), n.as_i64()) {
            (Some(u), _) => JsonNumber::PosInt(u),
            (None, Some(i)) => JsonNumber::NegInt(i),
            (None, None) => JsonNumber::Float,
        }),
        serde_json::Value::String(s) => JsonValue::String(s),
        serde_json::Value::Array(a) => JsonValue::Array(a.into_iter().map(json_value_from_outside).collect()),
        serde_json::Value::Object(m) => JsonValue::Object(m.into_iter().map(|(k, v)| (k, json_value_from_outside(v))).collect()),
    }
}

/// Decodes CBOR data with `sk_cbor::read`: the result is what [`cbor_decoding`] names, and the
/// reader only produces negative integers below zero.
#[verifier::external_body]
pub(crate) fn cbor_read(bytes: &[u8]) -> (r: Option<CborValue>)
    ensures
        match cbor_decoding(bytes@) {
            Some(v) => r is Some && r->0@ == v,
            None => r is None,
        },
        r is Some ==> cbor_negatives_valid(r->0@),
{
    sk_cbor::read(bytes).ok().map(cbor_value_from_outside)
}

/// Encodes a CBOR value with `sk_cbor::write`: the result is what [`cbor_encoding`] names. The
/// writer fails only on a map with two equal keys, so a value without maps is always written;
/// for such a value whose negative integers are below zero, `sk_cbor::read` gives it back.
#[verifier::external_body]
pub(crate) fn cbor_write(v: CborValue) -> (r: Option<Vec<u8>>)
    requires cbor_encodable(v@),
    ensures
        match cbor_encoding(v@) {
            Some(b) => r is Some && r->0@ == b,
            None => r is None,
        },
        cbor_plain(v@) ==> r is Some && cbor_decoding(r->0@) == Some(v@),
{
    let mut buffer: Vec<u8> = Vec::new();
    match sk_cbor::write(cbor_value_to_outside(v), &mut buffer) {
        Ok(()) => Some(buffer),
        Err(_) => None,
    }
}

/// Parses a JSON text with `serde_json::from_str`: the result is what [`json_text_decoding`]
/// names.
#[verifier::external_body]
pub(crate) fn json_from_str(text: &str) -> (r: Option<JsonValue>)
    ensures
        match json_text_decoding(text@) {
            Some(v) => r is Some && r->0@ == v,
            None => r is None,
        },
{
    serde_json::from_str::<serde_json::Value>(text).ok().map(json_value_from_outside)
}

/// Parses JSON bytes with `serde_json::from_slice`: the result is what [`json_bytes_decoding`]
/// names.
#[verifier::external_body]
pub(crate) fn json_from_slice(bytes: &[u8]) -> (r: Option<JsonValue>)
    ensures
        match json_bytes_decoding(bytes@) {
            Some(v) => r is Some && r->0@ == v,
            None => r is None,
        },
{
    serde_json::from_slice::<serde_json::Value>(bytes).ok().map(json_value_from_outside)
}

/// Encodes bytes with `base64::encode`, which uses the standard alphabet with padding: the
/// result is [`spec_base64_encode`] of the bytes, and `base64::decode` reads the bytes back from
/// it. (Its buffer size computation overflows only for more than `usize::MAX / 4 * 3` bytes,
/// more than a slice can hold.)
#[verifier::external_body]
pub(crate) fn base64_encode(bytes: &[u8]) -> (r: String)
    ensures
        r@ == spec_base64_encode(bytes@),
        base64_decoding(r@) == Some(bytes@),
{
    base64::encode(bytes)
}

/// Decodes a base64 text with `base64::decode`: the result is what [`base64_decoding`] names.
#[verifier::external_body]
pub(crate) fn base64_decode(text: &str) -> (r: Option<Vec<u8>>)
    ensures
        match base64_decoding(text@) {
            Some(b) => r is Some && r->0@ == b,
            None => r is None,
        },
{
    base64::decode(text).ok()
}

} // verus!
