//! Looking into JSON texts. A value inside a document is handled as the JSON text
//! of that value.
use vstd::prelude::*;

use crate::maps;
use crate::split;
use crate::text::same;
use crate::values;

verus! {

/// The JSON text of the value that a pointer leads to in a document, if the
/// document is JSON and has such a value.
pub uninterp spec fn json_at(doc: Seq<char>, pointer: Seq<char>) -> Option<Seq<char>>;

/// The text in a JSON string.
pub uninterp spec fn json_text(doc: Seq<char>) -> Option<Seq<char>>;

/// What the parser says of a text that is no JSON.
pub uninterp spec fn json_fault(doc: Seq<char>) -> Option<Seq<char>>;

/// The JSON texts of the items of a JSON array.
pub uninterp spec fn json_items(doc: Seq<char>) -> Option<Seq<Seq<char>>>;

pub open spec fn opt_views(o: Option<Vec<String>>) -> Option<Seq<Seq<char>>> {
    match o {
        Some(v) => Some(split::views(v@)),
        None => None,
    }
}

/// `serde_json::from_str` into a value, `Value::pointer` in it, and the value found
/// as text. What comes of it is named.
#[verifier::external_body]
pub(crate) fn value_at(doc: &str, pointer: &str) -> (r: Option<String>)
    ensures
        values::opt_view(r) == json_at(doc@, pointer@),
{
    serde_json::from_str::<serde_json::Value>(doc).ok().and_then(
        |v| v.pointer(pointer).map(|x| x.to_string()),
    )
}

/// The error of `serde_json::from_str` into a value, in words. What it says is named;
/// there is no error where there is a value.
#[verifier::external_body]
pub(crate) fn fault_of(doc: &str) -> (r: Option<String>)
    ensures
        values::opt_view(r) == json_fault(doc@),
        r is None <==> json_at(doc@, ""@) is Some,
{
    serde_json::from_str::<serde_json::Value>(doc).err().map(|e| e.to_string())
}

/// `serde_json::from_str` into a string. What it reads is named.
#[verifier::external_body]
pub(crate) fn text_of(doc: &str) -> (r: Option<String>)
    ensures
        values::opt_view(r) == json_text(doc@),
{
    serde_json::from_str::<String>(doc).ok()
}

/// `serde_json::from_str` into a list of values, each as text. What it reads is
/// named.
#[verifier::external_body]
pub(crate) fn items_of(doc: &str) -> (r: Option<Vec<String>>)
    ensures
        opt_views(r) == json_items(doc@),
{
    serde_json::from_str::<Vec<serde_json::Value>>(doc).ok().map(
        |v| v.into_iter().map(|x| x.to_string()).collect(),
    )
}

/// The members of a JSON object, with the JSON texts of their values.
pub uninterp spec fn json_members(doc: Seq<char>) -> Option<Seq<(Seq<char>, Seq<char>)>>;

/// `serde_json::from_str` into an object, each member's value as text. What it reads is
/// named.
#[verifier::external_body]
pub(crate) fn members_of(doc: &str) -> (r: Option<Vec<(String, String)>>)
    ensures
        match r {
            Some(v) => json_members(doc@) == Some(maps::pair_views(v@)),
            None => json_members(doc@) is None,
        },
{
    serde_json::from_str::<serde_json::Map<String, serde_json::Value>>(doc).ok().map(
        |m| m.into_iter().map(|(k, v)| (k, v.to_string())).collect(),
    )
}

/// A text as a JSON string.
pub uninterp spec fn json_literal(s: Seq<char>) -> Seq<char>;

/// `serde_json::to_string` of a text. What it writes is named; it is read back as the
/// same text.
#[verifier::external_body]
pub(crate) fn literal(s: &str) -> (r: String)
    ensures
        r@ == json_literal(s@),
        json_text(r@) == Some(s@),
{
    serde_json::to_string(s).unwrap()
}

/// The text at a pointer, where there is a JSON string.
pub open spec fn string_found(doc: Seq<char>, pointer: Seq<char>) -> Option<Seq<char>> {
    match json_at(doc, pointer) {
        Some(v) => json_text(v),
        None => None,
    }
}

pub fn string_at(doc: &str, pointer: &str) -> (r: Option<String>)
    ensures
        values::opt_view(r) == string_found(doc@, pointer@),
{
    match value_at(doc, pointer) {
        Some(v) => text_of(v.as_str()),
        None => None,
    }
}

/// Is the value at a pointer `true`?
pub open spec fn flag_found(doc: Seq<char>, pointer: Seq<char>) -> bool {
    json_at(doc, pointer) == Some("true"@)
}

pub fn flag_at(doc: &str, pointer: &str) -> (r: bool)
    ensures
        r == flag_found(doc@, pointer@),
{
    match value_at(doc, pointer) {
        Some(v) => same(v.as_str(), "true"),
        None => false,
    }
}

/// The items at a pointer, where there is a JSON array.
pub open spec fn items_found(doc: Seq<char>, pointer: Seq<char>) -> Option<Seq<Seq<char>>> {
    match json_at(doc, pointer) {
        Some(v) => json_items(v),
        None => None,
    }
}

pub fn items_at(doc: &str, pointer: &str) -> (r: Option<Vec<String>>)
    ensures
        opt_views(r) == items_found(doc@, pointer@),
{
    match value_at(doc, pointer) {
        Some(v) => items_of(v.as_str()),
        None => None,
    }
}

} // verus!
