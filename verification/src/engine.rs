//! The flight engine and the reader of its replies.
//!
//! Nothing in this file is proved: each item states what the library takes
//! on trust from the crates it calls.

use crate::request::is_request_text;
use crate::shot::token_view;
use vstd::prelude::*;

verus! {

/// A parsed JSON document of `serde_json`, carried as it is.
#[verifier::external_type_specification]
#[verifier::external_body]
pub struct ExValue(serde_json::Value);

/// The document that a text is read as, or `None` where the text is not
/// JSON.
pub uninterp spec fn json_document(text: Seq<char>) -> Option<serde_json::Value>;

/// A string written as a JSON string: in quotes, with what JSON does not
/// take as it stands escaped.
pub uninterp spec fn json_quoted(s: Seq<char>) -> Seq<char>;

/// The compact JSON text of the node that a JSON Pointer addresses in a
/// document, or `None` where the pointer addresses nothing.
pub uninterp spec fn json_node_text(doc: serde_json::Value, pointer: Seq<char>) -> Option<
    Seq<char>,
>;

/// The characters of the string that a JSON Pointer addresses in a document,
/// or `None` where the pointer addresses nothing or something other than a
/// string.
pub uninterp spec fn json_node_string(doc: serde_json::Value, pointer: Seq<char>) -> Option<
    Seq<char>,
>;

/// Calls `opengolfcoach::calculate_derived_values` on a request that
/// [`crate::request::render_request`] wrote.
///
/// Such a request is a JSON object that carries a peak height, so the engine
/// copies that height and never runs its own search for the highest sample,
/// the one step in it that aborts on a sample that is not a number. Nothing
/// is claimed of the reply.
#[verifier::external_body]
pub(crate) fn engine_call(request: &str) -> (r: Result<String, String>)
    requires
        is_request_text(request@),
{
    opengolfcoach::calculate_derived_values(request)
}

/// Calls `serde_json::from_str` for a `serde_json::Value`: the document, or
/// `None` where the text is not JSON. The claim is that the same text always
/// gives the same answer.
#[verifier::external_body]
pub(crate) fn parse_json(text: &str) -> (r: Option<serde_json::Value>)
    ensures
        r == json_document(text@),
{
    match serde_json::from_str::<serde_json::Value>(text) {
        Ok(doc) => Some(doc),
        Err(_) => None,
    }
}

/// Calls `serde_json::Value::pointer` and writes the node it finds with
/// `to_string`, which gives compact JSON: for a number its token, for null
/// the word `null`.
#[verifier::external_body]
pub(crate) fn node_text(doc: &serde_json::Value, pointer: &str) -> (r: Option<String>)
    ensures
        token_view(r) == json_node_text(*doc, pointer@),
{
    match doc.pointer(pointer) {
        Some(node) => Some(node.to_string()),
        None => None,
    }
}

/// Calls `serde_json::Value::pointer` and `serde_json::Value::as_str` on the
/// node it finds: the string's characters, unquoted.
#[verifier::external_body]
pub(crate) fn node_string(doc: &serde_json::Value, pointer: &str) -> (r: Option<String>)
    ensures
        token_view(r) == json_node_string(*doc, pointer@),
{
    match doc.pointer(pointer) {
        Some(node) => match node.as_str() {
            Some(s) => Some(s.to_string()),
            None => None,
        },
        None => None,
    }
}

/// Calls `to_string` on a `serde_json::Value::String` that holds the
/// characters: the JSON string for them.
#[verifier::external_body]
pub(crate) fn quote_json(s: &str) -> (r: String)
    ensures
        r@ == json_quoted(s@),
{
    serde_json::Value::String(s.to_string()).to_string()
}

} // verus!
