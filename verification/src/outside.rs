//! The trusted boundary: every call the engine makes into an outside crate
//! stands here, behind a contract that states only what that crate's source
//! shows.

use vstd::prelude::*;

verus! {

/// Draws a fresh random identifier.
///
/// Relies on uuid::Uuid::new_v4 and its Display form: a version-4 UUID
/// rendered hyphenated, which is always 36 characters. The value is random,
/// so nothing more is promised; callers must check uniqueness themselves.
#[verifier::external_body]
pub fn fresh_id() -> (r: String)
    ensures
        r@.len() == 36,
{
    uuid::Uuid::new_v4().to_string()
}

/// The character sequence that `str::to_lowercase` returns for `s`.
pub uninterp spec fn lower_of(s: Seq<char>) -> Seq<char>;

/// Lowercases a string.
///
/// Relies on str::to_lowercase: the result is a pure function of the input
/// characters, and an empty input yields an empty result.
#[verifier::external_body]
pub fn lowercase(s: &str) -> (r: String)
    ensures
        r@ == lower_of(s@),
        s@.len() == 0 ==> r@.len() == 0,
{
    s.to_lowercase()
}

#[verifier::external_type_specification]
#[verifier::external_body]
pub struct ExValue(serde_json::Value);

/// Whether `serde_json::from_slice` accepts the bytes as one JSON value:
/// a function of the bytes alone (the parser is deterministic, with its
/// recursion limit part of that function).
pub uninterp spec fn json_wellformed(data: Seq<u8>) -> bool;

/// Parses bytes as one JSON value.
///
/// Relies on serde_json::from_slice: `Some` exactly when the bytes are a
/// single well-formed JSON value. The value itself is opaque here; verified
/// code reads it only through the accessors below.
#[verifier::external_body]
pub fn json_parse(data: &[u8]) -> (r: Option<serde_json::Value>)
    ensures
        r is Some <==> json_wellformed(data@),
{
    serde_json::from_slice(data).ok()
}

/// Relies on serde_json::Value::as_array: `Some` exactly on an array value.
pub assume_specification[ serde_json::Value::as_array ](v: &serde_json::Value) -> (r: Option<
    &Vec<serde_json::Value>,
>);

/// Relies on serde_json::Value::as_str: `Some` exactly on a string value.
pub assume_specification[ serde_json::Value::as_str ](v: &serde_json::Value) -> (r: Option<&str>);

/// Reads one field of a JSON object.
///
/// Relies on serde_json::Value::get: `Some` exactly when the value is an
/// object carrying the key.
#[verifier::external_body]
pub fn json_get<'a>(v: &'a serde_json::Value, key: &str) -> (r: Option<&'a serde_json::Value>)
{
    v.get(key)
}

/// Serializes a JSON value back to its text.
///
/// Relies on serde_json::to_string, which cannot fail on a `Value` that came
/// from the parser (only non-string map keys can make it fail).
#[verifier::external_body]
pub fn json_to_string(v: &serde_json::Value) -> (r: Option<String>)
{
    serde_json::to_string(v).ok()
}

} // verus!
