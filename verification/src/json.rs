//! JSON values, and the two places where the library hands text to
//! `serde_json` or takes text from it.
//!
//! A value is carried through the library as it is: nothing here looks
//! inside one. What `serde_json` makes of a text, and which text it writes
//! for a list of values, is not restated here. Each has a name,
//! [`json_value`] and [`json_text`], and the contracts of the library speak
//! of those names.

use vstd::prelude::*;

verus! {

/// `serde_json::Value`, a parsed JSON value. Opaque to the verifier.
#[verifier::external_type_specification]
#[verifier::external_body]
pub struct ExValue(serde_json::Value);

/// The value that `serde_json::from_slice` reads from `text`, or `None` where
/// it reports an error.
pub uninterp spec fn json_value(text: Seq<u8>) -> Option<serde_json::Value>;

/// The text that `serde_json::to_string` writes for `values` as one JSON
/// array, or the message of the error that it reports.
pub uninterp spec fn json_text(values: Seq<serde_json::Value>) -> Result<Seq<char>, Seq<char>>;

/// Calls `serde_json::from_slice` on `text`, asking for a `Value`.
///
/// Trusted: the result is the named [`json_value`] of the bytes, which says
/// that the outcome depends on the bytes alone. An error of the parser comes
/// back as `None`.
#[verifier::external_body]
pub(crate) fn parse_value(text: &[u8]) -> (value: Option<serde_json::Value>)
    ensures
        value == json_value(text@),
{
    serde_json::from_slice::<serde_json::Value>(text).ok()
}

/// Calls `serde_json::to_string` on `values`.
///
/// Trusted: the result is the named [`json_text`] of the values. An error of
/// the serialiser comes back as its message. The serialiser descends into
/// nested arrays and objects by recursion, so the depth of a value is bounded
/// by the stack; a value that `serde_json` has parsed is at most 128 deep.
#[verifier::external_body]
pub(crate) fn write_values(values: &Vec<serde_json::Value>) -> (text: Result<String, String>)
    ensures
        match text {
            Ok(written) => json_text(values@) == Ok::<Seq<char>, Seq<char>>(written@),
            Err(message) => json_text(values@) == Err::<Seq<char>, Seq<char>>(message@),
        },
{
    match serde_json::to_string(values) {
        Ok(written) => Ok(written),
        Err(error) => Err(error.to_string()),
    }
}

} // verus!
