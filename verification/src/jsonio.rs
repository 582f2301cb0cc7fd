//! The JSON text boundary.
//!
//! Task payloads and plugin results are `serde_json::Value`s. The core
//! never inspects a payload — it is opaque data carried from submission to
//! the plugin and back — so the value type is declared opaque here and the
//! two conversions between values and JSON text are trusted calls into
//! serde_json. Both conversions depend on their argument alone, so their
//! outcomes are named: `json_text_of` is the text a value serializes to,
//! and `parse_ok` says which texts parse. Every decision the core makes
//! about such a conversion is taken on these names, in verified code.

use vstd::prelude::*;

verus! {

#[verifier::external_type_specification]
#[verifier::external_body]
pub struct ExValue(serde_json::Value);

/// The JSON text that `serde_json::to_string` renders a value as. A
/// function of the value alone; nothing is assumed about its shape.
pub uninterp spec fn json_text_of(v: serde_json::Value) -> Seq<char>;

/// Whether `serde_json::from_str` accepts a text as a JSON value. A
/// function of the text alone.
pub uninterp spec fn parse_ok(s: Seq<char>) -> bool;

/// Relies on `serde_json::to_string` to render a value as JSON text,
/// named `json_text_of`. Serializing a `Value` cannot fail: per its
/// documentation, `to_string` errors only for a failing `Serialize` impl
/// or a map with non-string keys, and a `Value` holds neither.
#[verifier::external_body]
pub(crate) fn value_to_text(v: &serde_json::Value) -> (r: Result<String, String>)
    ensures
        r is Ok,
        r matches Ok(t) ==> t@ == json_text_of(*v),
{
    serde_json::to_string(v).map_err(|e| e.to_string())
}

/// Relies on `serde_json::from_str` to parse JSON text into a value; it
/// succeeds exactly on the texts `parse_ok` names, and a parse error is
/// carried over as its message.
#[verifier::external_body]
pub(crate) fn text_to_value(s: &str) -> (r: Result<serde_json::Value, String>)
    ensures
        r is Ok <==> parse_ok(s@),
{
    serde_json::from_str::<serde_json::Value>(s).map_err(|e| e.to_string())
}

/// Relies on `serde_json::Value`'s `Clone`, which yields a value equal to
/// its source.
#[verifier::external_body]
pub(crate) fn clone_value(v: &serde_json::Value) -> (r: serde_json::Value)
    ensures
        r == v,
{
    v.clone()
}

} // verus!
