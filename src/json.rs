//! The JSON values that bodies carry, and the serde_json calls made on them.
use vstd::prelude::*;

verus! {

/// A JSON value of serde_json; opaque here, carried through as a body.
#[verifier::external_type_specification]
#[verifier::external_body]
pub struct ExValue(serde_json::Value);

/// Whether serde_json accepts `text` as one JSON value.
pub uninterp spec fn json_accepts(text: Seq<char>) -> bool;

/// The JSON string literal that serde_json writes for `s`: quoted, with
/// the characters that need it escaped.
pub uninterp spec fn json_string_literal(s: Seq<char>) -> Seq<char>;

/// Relies on serde_json::from_str: it parses `text` as a `Value`, and
/// fails exactly on text that is not one JSON value.
#[verifier::external_body]
pub(crate) fn parse_json(text: &str) -> (r: Option<serde_json::Value>)
    ensures
        r is Some <==> json_accepts(text@),
{
    serde_json::from_str::<serde_json::Value>(text).ok()
}

/// Relies on serde_json's `Display` for `Value`, which writes the value as
/// compact JSON text.
#[verifier::external_body]
pub(crate) fn json_text(v: &serde_json::Value) -> (r: String) {
    v.to_string()
}

/// Relies on serde_json's `Display` for `Value::String`: the JSON string
/// literal for `s`.
#[verifier::external_body]
pub(crate) fn quote_json(s: &str) -> (r: String)
    ensures
        r@ == json_string_literal(s@),
{
    serde_json::Value::from(s).to_string()
}

} // verus!
