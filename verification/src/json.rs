//! Reading single fields out of JSON texts.
use vstd::prelude::*;

use crate::backend::properties;

verus! {

/// The text under a key of the JSON object in `text`, as `serde_json` reads
/// it; nothing where `text` is no JSON, no object, or holds no text there.
pub uninterp spec fn json_text_under(text: Seq<char>, key: Seq<char>) -> Option<Seq<char>>;

/// The whole number under a key of the JSON object in `bytes`, as `serde_json`
/// reads it; the outer nothing where `bytes` are no JSON.
pub uninterp spec fn json_number_under(bytes: Seq<u8>, key: Seq<char>) -> Option<Option<u64>>;

/// Calls `serde_json::from_str` for a `serde_json::Value`, looks the key up
/// with `Value::get` and takes a text out with `Value::as_str`.
#[verifier::external_body]
fn read_json_text(text: &str, key: &str) -> (value: Option<String>)
    ensures
        properties::held(value) == json_text_under(text@, key@),
{
    let parsed: Option<serde_json::Value> = serde_json::from_str(text).ok();
    parsed.as_ref().and_then(|value| value.get(key)).and_then(|value| value.as_str()).map(
        str::to_owned,
    )
}

/// Calls `serde_json::from_slice` for a `serde_json::Value`, looks the key up
/// with `Value::get` and takes a number out with `Value::as_u64`.
#[verifier::external_body]
fn read_json_number(bytes: &[u8], key: &str) -> (value: Option<Option<u64>>)
    ensures
        value == json_number_under(bytes@, key@),
{
    let parsed: Option<serde_json::Value> = serde_json::from_slice(bytes).ok();
    parsed.map(|value| value.get(key).and_then(|value| value.as_u64()))
}

/// The text under a key of a JSON object.
pub fn json_text(text: &str, key: &str) -> (value: Option<String>)
    ensures
        properties::held(value) == json_text_under(text@, key@),
{
    read_json_text(text, key)
}

/// The whole number under a key of a JSON object; nothing where the bytes are
/// no JSON.
pub fn json_number(bytes: &[u8], key: &str) -> (value: Option<Option<u64>>)
    ensures
        value == json_number_under(bytes@, key@),
{
    read_json_number(bytes, key)
}

} // verus!
