//! What the library asks of a JSON document: whether it parses, the string
//! value of a top-level member, and the document re-serialised with a member
//! removed or set.

use vstd::prelude::*;
use crate::text::opt_chars;

verus! {

/// `text` is a JSON document (`serde_json::from_str::<Value>` succeeds).
pub uninterp spec fn json_parses(text: Seq<char>) -> bool;

/// The string value of the top-level member `key` of the JSON document
/// `text`; `None` when `text` does not parse, is not an object, lacks the
/// member or its value is not a string.
pub uninterp spec fn json_string_member(text: Seq<char>, key: Seq<char>) -> Option<Seq<char>>;

/// `serde_json::from_str::<serde_json::Value>`, keeping only whether it
/// succeeded.
///
/// Claimed: the result is the named [`json_parses`] of the text.
#[verifier::external_body]
pub fn json_is_valid(text: &str) -> (b: bool)
    ensures
        b == json_parses(text@),
{
    serde_json::from_str::<serde_json::Value>(text).is_ok()
}

/// `serde_json::from_str::<serde_json::Value>`, then `Value::get(key)` and
/// `Value::as_str`.
///
/// Claimed: the result is the named [`json_string_member`]; a member is only
/// found in a document that parses.
#[verifier::external_body]
pub fn json_string_member_of(text: &str, key: &str) -> (r: Option<String>)
    ensures
        opt_chars(r) == json_string_member(text@, key@),
        r is Some ==> json_parses(text@),
{
    let value = match serde_json::from_str::<serde_json::Value>(text) {
        Ok(value) => value,
        Err(_) => return None,
    };
    match value.get(key) {
        Some(member) => match member.as_str() {
            Some(s) => Some(s.to_string()),
            None => None,
        },
        None => None,
    }
}

/// `text` is a JSON document whose top level is an object.
pub uninterp spec fn json_object(text: Seq<char>) -> bool;

/// `serde_json::from_str::<Value>` then `Value::is_object`.
///
/// Claimed: the result is the named [`json_object`]; an object is a document
/// that parses.
#[verifier::external_body]
pub fn json_is_object(text: &str) -> (b: bool)
    ensures
        b == json_object(text@),
        b ==> json_parses(text@),
{
    match serde_json::from_str::<serde_json::Value>(text) {
        Ok(value) => value.is_object(),
        Err(_) => false,
    }
}

/// The JSON document `text` serialised again, pretty-printed; `None` when it
/// does not parse.
pub uninterp spec fn json_pretty(text: Seq<char>) -> Option<Seq<char>>;

/// The JSON document `text` pretty-printed without its top-level member
/// `key` (unchanged when the top level is not an object); `None` when it does
/// not parse.
pub uninterp spec fn json_pretty_without(text: Seq<char>, key: Seq<char>) -> Option<Seq<char>>;

/// The JSON document `text` serialised compactly without its top-level member
/// `key` (unchanged when the top level is not an object); `None` when it does
/// not parse.
pub uninterp spec fn json_compact_without(text: Seq<char>, key: Seq<char>) -> Option<Seq<char>>;

/// The JSON document `text` serialised compactly after setting its top-level
/// member `key` to the string `value` and then removing the member `removed`
/// (unchanged when the top level is not an object); `None` when it does not
/// parse.
pub uninterp spec fn json_compact_with_without(
    text: Seq<char>,
    key: Seq<char>,
    value: Seq<char>,
    removed: Seq<char>,
) -> Option<Seq<char>>;

/// `serde_json::from_str::<Value>` then `serde_json::to_string_pretty`.
///
/// Claimed: the result is the named [`json_pretty`]; there is one exactly
/// for a document that parses (a `Value` always serialises).
#[verifier::external_body]
pub fn json_pretty_of(text: &str) -> (r: Option<String>)
    ensures
        opt_chars(r) == json_pretty(text@),
        r is Some <==> json_parses(text@),
{
    let value = match serde_json::from_str::<serde_json::Value>(text) {
        Ok(value) => value,
        Err(_) => return None,
    };
    match serde_json::to_string_pretty(&value) {
        Ok(s) => Some(s),
        Err(_) => None,
    }
}

/// `serde_json::from_str::<Value>`, `Map::remove(key)` on an object, then
/// `serde_json::to_string_pretty`.
///
/// Claimed: the result is the named [`json_pretty_without`]; there is one
/// exactly for a document that parses (a `Value` always serialises).
#[verifier::external_body]
pub fn json_pretty_without_member(text: &str, key: &str) -> (r: Option<String>)
    ensures
        opt_chars(r) == json_pretty_without(text@, key@),
        r is Some <==> json_parses(text@),
{
    let mut value = match serde_json::from_str::<serde_json::Value>(text) {
        Ok(value) => value,
        Err(_) => return None,
    };
    if let Some(object) = value.as_object_mut() {
        object.remove(key);
    }
    match serde_json::to_string_pretty(&value) {
        Ok(s) => Some(s),
        Err(_) => None,
    }
}

/// `serde_json::from_str::<Value>`, `Map::remove(key)` on an object, then
/// `serde_json::to_string`.
///
/// Claimed: the result is the named [`json_compact_without`]; there is one
/// exactly for a document that parses (a `Value` always serialises).
#[verifier::external_body]
pub fn json_compact_without_member(text: &str, key: &str) -> (r: Option<String>)
    ensures
        opt_chars(r) == json_compact_without(text@, key@),
        r is Some <==> json_parses(text@),
{
    let mut value = match serde_json::from_str::<serde_json::Value>(text) {
        Ok(value) => value,
        Err(_) => return None,
    };
    if let Some(object) = value.as_object_mut() {
        object.remove(key);
    }
    match serde_json::to_string(&value) {
        Ok(s) => Some(s),
        Err(_) => None,
    }
}

/// `serde_json::from_str::<Value>`, then on an object `Map::insert(key,
/// Value::String(value))` and `Map::remove(removed)`, then
/// `serde_json::to_string`; called on documents whose top level is an
/// object.
///
/// Claimed: the result is the named [`json_compact_with_without`]; there is
/// always one; and when `key` differs from `removed`, the result is again JSON
/// whose member `key` is the string `value`.
#[verifier::external_body]
pub fn json_compact_with_member_without(text: &str, key: &str, value: &str, removed: &str) -> (r:
    Option<String>)
    requires
        json_object(text@),
    ensures
        opt_chars(r) == json_compact_with_without(text@, key@, value@, removed@),
        r is Some,
        key@ != removed@ ==> (r matches Some(p) ==> json_parses(p@) && json_string_member(p@, key@)
            == Some(value@)),
{
    let mut document = match serde_json::from_str::<serde_json::Value>(text) {
        Ok(document) => document,
        Err(_) => return None,
    };
    if let Some(object) = document.as_object_mut() {
        object.insert(key.to_string(), serde_json::Value::String(value.to_string()));
        object.remove(removed);
    }
    match serde_json::to_string(&document) {
        Ok(s) => Some(s),
        Err(_) => None,
    }
}

} // verus!
