//! JSON text, read and written by `serde_json`.

use crate::string_map;
use serde_json::Value;
use std::collections::BTreeMap;
use vstd::prelude::*;

verus! {

/// Declares `serde_json::Value`, a JSON value.
#[verifier::external_type_specification]
#[verifier::external_body]
pub struct ExValue(serde_json::Value);

/// What `serde_json::from_slice` makes of bytes: the value, or the message of the error.
pub uninterp spec fn json_value(data: Seq<u8>) -> Result<Value, Seq<char>>;

/// The JSON value of a text, `serde_json::Value::String`.
pub uninterp spec fn json_text(s: Seq<char>) -> Value;

/// What `serde_json::to_vec` writes for a list of values, unless it fails.
pub uninterp spec fn json_array(values: Seq<Value>) -> Option<Seq<u8>>;

/// What `serde_json::to_string` writes for a map of texts, unless it fails.
pub uninterp spec fn json_object(m: Map<Seq<char>, Seq<char>>) -> Option<Seq<char>>;

/// Calls `serde_json::from_slice` for a `Value`. The outcome, named [`json_value`],
/// rests on the bytes alone; an error is handed on as its message.
#[verifier::external_body]
pub(crate) fn parse_json(data: &[u8]) -> (r: Result<Value, String>)
    ensures
        match r {
            Ok(v) => json_value(data@) == Ok::<Value, Seq<char>>(v),
            Err(e) => json_value(data@) == Err::<Value, Seq<char>>(e@),
        },
{
    serde_json::from_slice::<Value>(data).map_err(|e| e.to_string())
}

/// Makes a `serde_json::Value::String`, named [`json_text`].
#[verifier::external_body]
pub(crate) fn text_value(s: String) -> (r: Value)
    ensures
        r == json_text(s@),
{
    Value::String(s)
}

/// Calls `serde_json::to_vec` on a list of values. The bytes, named [`json_array`],
/// rest on the values alone.
#[verifier::external_body]
pub(crate) fn write_array(values: &Vec<Value>) -> (r: Option<Vec<u8>>)
    ensures
        match r {
            Some(b) => json_array(values@) == Some(b@),
            None => json_array(values@) is None,
        },
{
    serde_json::to_vec(values).ok()
}

/// Calls `serde_json::to_string` on the pairs, collected in a `BTreeMap`. The text,
/// named [`json_object`], rests on the entries alone: the keys are written in order.
#[verifier::external_body]
pub(crate) fn write_object(pairs: Vec<(String, String)>) -> (r: Option<String>)
    ensures
        match r {
            Some(s) => json_object(string_map::text_values(string_map::entries_map(pairs@))) == Some(s@),
            None => json_object(string_map::text_values(string_map::entries_map(pairs@))) is None,
        },
{
    let map: BTreeMap<String, String> = pairs.into_iter().collect();
    serde_json::to_string(&map).ok()
}

/// What the base64 encoding with the standard alphabet and padding makes of bytes.
pub uninterp spec fn base64_text(data: Seq<u8>) -> Seq<char>;

/// The text of the encoding can be held in memory.
pub open spec fn base64_fits(n: nat) -> bool {
    4 * (n / 3 + 1) <= isize::MAX
}

/// Calls `base64::Engine::encode` of the engine `STANDARD`. The text, named
/// [`base64_text`], rests on the bytes alone. The call panics where the text would
/// not fit in memory.
#[verifier::external_body]
pub(crate) fn encode_base64(data: &[u8]) -> (r: String)
    requires
        base64_fits(data@.len()),
    ensures
        r@ == base64_text(data@),
{
    base64::Engine::encode(&base64::engine::general_purpose::STANDARD, data)
}

} // verus!
