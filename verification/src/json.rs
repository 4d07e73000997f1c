//! JSON text, by way of `serde_json`.

use crate::text::{fits_c_string, texts};
use serde_json::Value;
use vstd::prelude::*;

verus! {

/// `serde_json::Value`, a parsed JSON document.
#[verifier::external_type_specification]
#[verifier::external_body]
pub struct ExValue(serde_json::Value);

/// What is told apart in a document. Numbers and null are one.
pub enum Json {
    Bool(bool),
    Text(Seq<char>),
    List(Seq<Json>),
    Object(Map<Seq<char>, Json>),
    Other,
}

/// What a document holds.
pub uninterp spec fn json(value: Value) -> Json;

/// The document that a text spells, or nothing if it is not JSON.
pub uninterp spec fn parsed(text: Seq<char>) -> Option<Value>;

/// The text that `serde_json` writes for a document.
pub uninterp spec fn written(value: Value) -> Seq<char>;

/// The text that `serde_json` writes for a list of strings.
pub uninterp spec fn written_list(list: Seq<Seq<char>>) -> Seq<char>;

/// A list of strings as a document.
pub open spec fn list_of(list: Seq<Seq<char>>) -> Json {
    Json::List(Seq::new(list.len(), |i: int| Json::Text(list[i])))
}

/// The text is JSON and spells this list of strings.
pub open spec fn spells_list(text: Seq<char>, list: Seq<Seq<char>>) -> bool {
    parsed(text) is Some && json(parsed(text)->0) == list_of(list)
}

/// The member of an object; nothing if there is none or if it is no object.
pub open spec fn member(document: Json, key: Seq<char>) -> Option<Json> {
    match document {
        Json::Object(members) => if members.contains_key(key) {
            Some(members[key])
        } else {
            None
        },
        _ => None,
    }
}

/// The text of a string; nothing if it is none.
pub open spec fn json_text(document: Json) -> Option<Seq<char>> {
    match document {
        Json::Text(s) => Some(s),
        _ => None,
    }
}

/// The value of a boolean; nothing if it is none.
pub open spec fn json_bool(document: Json) -> Option<bool> {
    match document {
        Json::Bool(b) => Some(b),
        _ => None,
    }
}

/// `serde_json::from_str`: parses a text. Which texts are JSON, and what they
/// spell, is named and not stated.
#[verifier::external_body]
pub(crate) fn parse(text: &str) -> (r: Option<Value>)
    ensures
        r == parsed(text@),
{
    serde_json::from_str(text).ok()
}

/// `serde_json::Value::get` with a string: the member of that name, if the
/// document is an object that has it.
#[verifier::external_body]
pub(crate) fn get<'a>(value: &'a Value, key: &str) -> (r: Option<&'a Value>)
    ensures
        match r {
            Some(v) => member(json(*value), key@) == Some(json(*v)),
            None => member(json(*value), key@) is None,
        },
{
    value.get(key)
}

/// `serde_json::Value::as_str`: the text of a string, and nothing of any other
/// document.
#[verifier::external_body]
pub(crate) fn as_str(value: &Value) -> (r: Option<&str>)
    ensures
        match r {
            Some(s) => json_text(json(*value)) == Some(s@),
            None => json_text(json(*value)) is None,
        },
{
    value.as_str()
}

/// `serde_json::Value::as_bool`: the value of a boolean, and nothing of any
/// other document.
#[verifier::external_body]
pub(crate) fn as_bool(value: &Value) -> (r: Option<bool>)
    ensures
        r == json_bool(json(*value)),
{
    value.as_bool()
}

/// `serde_json::to_string` on a document: its text on one line. It fails only
/// where a type refuses to be written or has keys that are no strings, so not
/// here. Control characters are escaped, so the text has no NUL.
#[verifier::external_body]
pub(crate) fn write_value(value: &Value) -> (r: Option<String>)
    ensures
        r is Some,
        r->0@ == written(*value),
        fits_c_string(r->0@),
{
    serde_json::to_string(value).ok()
}

/// `serde_json::Value::clone`: the same document once more.
#[verifier::external_body]
pub(crate) fn copy_value(value: &Value) -> (r: Value)
    ensures
        r == *value,
{
    value.clone()
}

/// `serde_json::to_string` on a list of strings: a JSON array on one line, which
/// parses back to the same strings. It fails only where a type refuses to be
/// written or has keys that are no strings, so not here. Control characters are
/// escaped, so the text has no NUL.
#[verifier::external_body]
pub(crate) fn write_list(list: &Vec<String>) -> (r: Option<String>)
    ensures
        r is Some,
        r->0@ == written_list(texts(list@)),
        spells_list(r->0@, texts(list@)),
        fits_c_string(r->0@),
{
    serde_json::to_string(list).ok()
}

/// What is read of a document: the members of an object by their names, the text
/// of a string and the value of a boolean, all of them whole; nothing of anything
/// else.
pub proof fn law_documents_are_read(
    document: Json,
    members: Map<Seq<char>, Json>,
    key: Seq<char>,
    text: Seq<char>,
    value: bool,
)
    ensures
        members.contains_key(key) ==> member(Json::Object(members), key) == Some(members[key]),
        !members.contains_key(key) ==> member(Json::Object(members), key) is None,
        !(document is Object) ==> member(document, key) is None,
        json_text(Json::Text(text)) == Some(text),
        !(document is Text) ==> json_text(document) is None,
        json_bool(Json::Bool(value)) == Some(value),
        !(document is Bool) ==> json_bool(document) is None,
{
}

/// A text that spells a list of strings parses to a list with just these strings,
/// in order.
pub proof fn law_spelled_list_has_the_strings(text: Seq<char>, list: Seq<Seq<char>>, i: int)
    requires
        spells_list(text, list),
    ensures
        parsed(text) is Some,
        json(parsed(text)->0) is List,
        json(parsed(text)->0)->List_0.len() == list.len(),
        0 <= i < list.len() ==> json(parsed(text)->0)->List_0[i] == Json::Text(list[i]),
{
}

} // verus!
