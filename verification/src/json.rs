//! The JSON values that tool calls carry, and the one question the library
//! asks of JSON text: whether it is a JSON document.
use vstd::prelude::*;

verus! {

/// A JSON value; the library carries it through without looking inside.
#[verifier::external_type_specification]
#[verifier::external_body]
pub struct ExJsonValue(serde_json::Value);

/// Whether `text` is one JSON document, as `serde_json` reads it: a value,
/// with nothing but white space around it.
pub uninterp spec fn is_json_text(text: Seq<char>) -> bool;

/// Whether `serde_json::from_str::<serde_json::Value>` accepts `text`.
///
/// Trusted: the result is `is_json_text(text@)`, and the empty text is never
/// accepted (`serde_json` reports an end of input while parsing a value).
/// Which other texts are accepted is not stated here.
#[verifier::external_body]
pub(crate) fn json_text_is_valid(text: &str) -> (ok: bool)
    ensures
        ok == is_json_text(text@),
        text@.len() == 0 ==> !ok,
{
    serde_json::from_str::<serde_json::Value>(text).is_ok()
}

} // verus!
