//! The JSON of `serde_json` that this library reads and writes: the types
//! its values carry, and the reads and encodings it asks of the crate.

use crate::text::texts;
use vstd::prelude::*;

verus! {

/// A JSON value, carried through as it is.
#[verifier::external_type_specification]
#[verifier::external_body]
pub struct ExJsonValue(serde_json::Value);

/// A JSON encoding or decoding failure, carried through as it is.
#[verifier::external_type_specification]
#[verifier::external_body]
pub struct ExJsonError(serde_json::Error);

/// The string field `key` of a JSON frame: `None` where the bytes are not
/// JSON, `Some(None)` where the value has no such field or it is not a string.
pub uninterp spec fn json_str_field_of(data: Seq<u8>, key: Seq<char>) -> Option<Option<Seq<char>>>;

/// Whether the JSON value of a frame has a field `key` (false where the
/// bytes are not JSON).
pub uninterp spec fn json_has_field_of(data: Seq<u8>, key: Seq<char>) -> bool;

/// The JSON text of an object whose fields `keys` hold the strings `values`.
pub uninterp spec fn json_text_object_of(keys: Seq<Seq<char>>, values: Seq<Seq<char>>) -> Seq<u8>;

/// The JSON text of an object whose fields `keys` hold the strings
/// `values`, with the field `key` of the JSON frame `data` copied in (JSON
/// `null` where there is no such field).
pub uninterp spec fn json_text_object_with_of(
    keys: Seq<Seq<char>>,
    values: Seq<Seq<char>>,
    data: Seq<u8>,
    key: Seq<char>,
) -> Seq<u8>;

/// The text of a doubly optional string.
pub open spec fn text_of_field(f: Option<Option<String>>) -> Option<Option<Seq<char>>> {
    match f {
        None => None,
        Some(None) => Some(None),
        Some(Some(s)) => Some(Some(s@)),
    }
}

/// Parses a frame with `serde_json::from_slice` into a JSON value and reads
/// the field `key` with `Value::get` and `Value::as_str`. The contract claims
/// only that the outcome depends on the bytes and the key alone.
#[verifier::external_body]
pub(crate) fn json_str_field(data: &[u8], key: &str) -> (r: Option<Option<String>>)
    ensures
        text_of_field(r) == json_str_field_of(data@, key@),
{
    let value: serde_json::Value = serde_json::from_slice(data).ok()?;
    Some(value.get(key).and_then(serde_json::Value::as_str).map(str::to_string))
}

/// Parses a frame with `serde_json::from_slice` and asks `Value::get`
/// whether it has the field `key`. The contract claims only that the
/// outcome depends on the bytes and the key alone.
#[verifier::external_body]
pub(crate) fn json_has_field(data: &[u8], key: &str) -> (r: bool)
    ensures
        r == json_has_field_of(data@, key@),
{
    match serde_json::from_slice::<serde_json::Value>(data) {
        Ok(value) => value.get(key).is_some(),
        Err(_) => false,
    }
}

/// Collects the key/value pairs into a `serde_json::Map` of strings and
/// encodes it with `serde_json::to_vec`, which cannot fail on a map with
/// string keys. The contract claims only that the bytes depend on the keys
/// and values alone.
#[verifier::external_body]
pub(crate) fn encode_json_texts(keys: &Vec<String>, values: &Vec<String>) -> (r: Vec<u8>)
    ensures
        r@ == json_text_object_of(texts(keys@), texts(values@)),
{
    let object: serde_json::Map<String, serde_json::Value> =
        keys.iter().cloned().zip(values.iter().cloned().map(serde_json::Value::String)).collect();
    serde_json::to_vec(&serde_json::Value::Object(object)).unwrap_or_default()
}

/// As `encode_json_texts`, with the field `key` of the JSON frame `data`
/// (read with `serde_json::from_slice` and `Value::get`) copied in, or JSON
/// `null` where the frame has no such field (`Value::default`). The contract
/// claims only that the bytes depend on the arguments alone.
#[verifier::external_body]
pub(crate) fn encode_json_texts_with(keys: &Vec<String>, values: &Vec<String>, data: &[u8], key: &str) -> (r:
    Vec<u8>)
    ensures
        r@ == json_text_object_with_of(texts(keys@), texts(values@), data@, key@),
{
    let mut object: serde_json::Map<String, serde_json::Value> =
        keys.iter().cloned().zip(values.iter().cloned().map(serde_json::Value::String)).collect();
    let value: serde_json::Value = serde_json::from_slice(data).unwrap_or_default();
    object.insert(key.to_string(), value.get(key).cloned().unwrap_or_default());
    serde_json::to_vec(&serde_json::Value::Object(object)).unwrap_or_default()
}

/// The JSON text of an object whose fields `keys` hold the strings
/// `values`, with the JSON value whose text is `value` under `key` (JSON
/// `null` where `value` is not JSON text).
pub uninterp spec fn json_text_object_with_value_of(
    keys: Seq<Seq<char>>,
    values: Seq<Seq<char>>,
    key: Seq<char>,
    value: Seq<u8>,
) -> Seq<u8>;

/// As `encode_json_texts`, with the JSON value read from `value` by
/// `serde_json::from_slice` under `key`, or JSON `null` where `value` is not
/// JSON text (`Value::default`). The contract claims only that the bytes
/// depend on the arguments alone.
#[verifier::external_body]
pub(crate) fn encode_json_texts_with_value(keys: &Vec<String>, values: &Vec<String>, key: &str, value: &[u8]) -> (r:
    Vec<u8>)
    ensures
        r@ == json_text_object_with_value_of(texts(keys@), texts(values@), key@, value@),
{
    let mut object: serde_json::Map<String, serde_json::Value> =
        keys.iter().cloned().zip(values.iter().cloned().map(serde_json::Value::String)).collect();
    object.insert(key.to_string(), serde_json::from_slice(value).unwrap_or_default());
    serde_json::to_vec(&serde_json::Value::Object(object)).unwrap_or_default()
}

} // verus!
