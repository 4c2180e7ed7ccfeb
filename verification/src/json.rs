//! What the library asks of `serde_json`: whether a text is JSON, and which
//! string stands at a place inside it.

use crate::text::text_view;
use vstd::prelude::*;

verus! {

/// Whether `serde_json` reads `text` as one JSON value with nothing but
/// white space around it.
pub uninterp spec fn json_parses(text: Seq<char>) -> bool;

/// The string that stands at `pointer`, a JSON Pointer, in the value that
/// `serde_json` reads from `text`. There is none where the text is not JSON,
/// where the pointer leads nowhere, and where it leads to something other
/// than a string.
pub uninterp spec fn json_string_at(text: Seq<char>, pointer: Seq<char>) -> Option<Seq<char>>;

/// Calls `serde_json::from_str` for a `serde_json::Value` and reports whether
/// it succeeded. Trusted: the answer is `json_parses` of the text, that is,
/// the parser gives the same answer for the same text every time.
#[verifier::external_body]
pub(crate) fn parses_as_json(text: &str) -> (ok: bool)
    ensures
        ok == json_parses(text@),
{
    serde_json::from_str::<serde_json::Value>(text).is_ok()
}

/// Calls `serde_json::from_str` for a `serde_json::Value`, then
/// `Value::pointer` and `Value::as_str` on what it read. Trusted: the string
/// handed back is `json_string_at` of the text and the pointer.
#[verifier::external_body]
pub(crate) fn string_at(text: &str, pointer: &str) -> (found: Option<String>)
    ensures
        text_view(found) == json_string_at(text@, pointer@),
{
    let value = serde_json::from_str::<serde_json::Value>(text).ok()?;
    value.pointer(pointer)?.as_str().map(|s| s.to_string())
}

} // verus!
