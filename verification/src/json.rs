//! JSON text helpers backed by `serde_json`.
use vstd::prelude::*;

verus! {

/// A JSON value (`serde_json::Value`), carried through unread.
#[verifier::external_type_specification]
#[verifier::external_body]
pub struct ExJsonValue(serde_json::Value);

/// The compact re-serialization that `serde_json` produces for the JSON text
/// `raw`, or `None` when `raw` is not valid JSON.
pub uninterp spec fn json_reserialized(raw: Seq<char>) -> Option<Seq<char>>;

/// Parses `raw` as a `serde_json::Value` and prints it back compactly
/// (`serde_json::from_str` followed by `Value::to_string`); `None` when parsing fails.
/// The contract names the result: it is `json_reserialized(raw@)`.
#[verifier::external_body]
pub(crate) fn json_reserialize(raw: &str) -> (r: Option<String>)
    ensures
        match r {
            Some(t) => json_reserialized(raw@) == Some(t@),
            None => json_reserialized(raw@) is None,
        },
{
    serde_json::from_str::<serde_json::Value>(raw).ok().map(|v| v.to_string())
}

/// The JSON object `{"type": t}` (a `serde_json::Value::Object` with one
/// entry), the shape of a minimal JSON Schema.
pub uninterp spec fn json_object_of_type(t: Seq<char>) -> serde_json::Value;

/// Builds the object `{"type": kind}` with `serde_json::Map::insert` and
/// `Value::Object`; the result is named `json_object_of_type`.
#[verifier::external_body]
pub(crate) fn object_of_type(kind: &str) -> (v: serde_json::Value)
    ensures
        v == json_object_of_type(kind@),
{
    let mut map = serde_json::Map::new();
    map.insert("type".to_string(), serde_json::Value::String(kind.to_string()));
    serde_json::Value::Object(map)
}

/// `Clone::clone` of a `serde_json::Value` gives back an equal value.
pub assume_specification[ <serde_json::Value as Clone>::clone ](v: &serde_json::Value) -> (r:
    serde_json::Value)
    ensures
        r == *v,
;

} // verus!
