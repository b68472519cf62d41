//! JSON documents and string maps, read and written by `serde_json`.

use vstd::prelude::*;

use crate::models::settings::pairs_view;

verus! {

/// What `serde_json::from_str` reads from `text` as a JSON object of string
/// values: its entries in key order, or `None` when `text` is not such an object.
pub uninterp spec fn json_string_map(text: Seq<char>) -> Option<Seq<(Seq<char>, Seq<char>)>>;

/// What `serde_json::to_string` writes for the object with the given entries.
pub uninterp spec fn json_of_string_map(entries: Seq<(Seq<char>, Seq<char>)>) -> Seq<char>;

/// `serde_json::from_str::<BTreeMap<String, String>>`: the entries of a JSON
/// object whose values are all strings, in key order; `None` when the text is
/// not such an object. The result is named, as it depends on the text alone.
#[verifier::external_body]
pub(crate) fn parse_string_map(text: &str) -> (r: Option<Vec<(String, String)>>)
    ensures
        match r {
            Some(v) => json_string_map(text@) == Some(pairs_view(v@)),
            None => json_string_map(text@) is None,
        },
{
    serde_json::from_str::<std::collections::BTreeMap<String, String>>(text).ok().map(|m| m.into_iter().collect())
}

/// `serde_json::to_string` of the map holding the given entries. Writing a
/// map of strings cannot fail; the result is named, as it depends on the
/// entries alone.
#[verifier::external_body]
pub(crate) fn string_map_to_json(entries: &Vec<(String, String)>) -> (r: String)
    ensures
        r@ == json_of_string_map(pairs_view(entries@)),
{
    serde_json::to_string(&entries.iter().cloned().collect::<std::collections::BTreeMap<String, String>>()).unwrap_or_default()
}

}

verus! {

#[verifier::external_type_specification]
#[verifier::external_body]
pub struct ExJsonValue(serde_json::Value);

/// A JSON document as the library reads and writes it. A number keeps the
/// text `serde_json` writes for it; an object's members are listed in the
/// order `serde_json` keeps them.
#[derive(Debug)]
pub enum JsonValue {
    Null,
    Bool(bool),
    Number(String),
    Str(String),
    Array(Vec<JsonValue>),
    Object(Vec<(String, JsonValue)>),
}

/// What `serde_json::from_str::<serde_json::Value>` reads from a text: the
/// document it holds, or `None` when it holds none. It depends on the text alone.
pub uninterp spec fn json_document(text: Seq<char>) -> Option<JsonValue>;

/// What `serde_json::to_string_pretty` writes for a document; it depends on
/// the document alone.
pub uninterp spec fn json_pretty(doc: JsonValue) -> Seq<char>;

/// Moves a `serde_json::Value` into the library's document, value for value.
#[verifier::external_body]
fn from_serde(v: serde_json::Value) -> JsonValue {
    match v {
        serde_json::Value::Null => JsonValue::Null,
        serde_json::Value::Bool(b) => JsonValue::Bool(b),
        serde_json::Value::Number(n) => JsonValue::Number(n.to_string()),
        serde_json::Value::String(t) => JsonValue::Str(t),
        serde_json::Value::Array(items) => JsonValue::Array(items.into_iter().map(from_serde).collect()),
        serde_json::Value::Object(m) => JsonValue::Object(m.into_iter().map(|(k, x)| (k, from_serde(x))).collect()),
    }
}

/// Builds the `serde_json::Value` of a document, value for value (a number
/// whose text is no JSON number becomes `null`).
#[verifier::external_body]
fn to_serde(v: &JsonValue) -> serde_json::Value {
    match v {
        JsonValue::Null => serde_json::Value::Null,
        JsonValue::Bool(b) => serde_json::Value::Bool(*b),
        JsonValue::Number(n) => n.parse().map(serde_json::Value::Number).unwrap_or(serde_json::Value::Null),
        JsonValue::Str(t) => serde_json::Value::String(t.clone()),
        JsonValue::Array(items) => serde_json::Value::Array(items.iter().map(to_serde).collect()),
        JsonValue::Object(m) => serde_json::Value::Object(m.iter().map(|(k, x)| (k.clone(), to_serde(x))).collect()),
    }
}

/// `serde_json::from_str::<serde_json::Value>`: the document a text holds,
/// or the parser's message when it holds none. The document is named by
/// `json_document`.
#[verifier::external_body]
pub(crate) fn parse_json(text: &str) -> (r: Result<JsonValue, String>)
    ensures
        match r {
            Ok(v) => json_document(text@) == Some(v),
            Err(_) => json_document(text@) is None,
        },
{
    match serde_json::from_str::<serde_json::Value>(text) {
        Ok(v) => Ok(from_serde(v)),
        Err(e) => Err(e.to_string()),
    }
}

/// `serde_json::to_string_pretty` of a document, which cannot fail for a
/// `serde_json::Value`; the text is named by `json_pretty`.
#[verifier::external_body]
pub(crate) fn to_pretty_json(v: &JsonValue) -> (r: String)
    ensures
        r@ == json_pretty(*v),
{
    serde_json::to_string_pretty(&to_serde(v)).unwrap_or_default()
}

/// The value of the last member named `key`, if any.
pub open spec fn member_spec(members: Seq<(String, JsonValue)>, key: Seq<char>) -> Option<JsonValue>
    decreases members.len(),
{
    if members.len() == 0 {
        None
    } else if members.last().0@ == key {
        Some(members.last().1)
    } else {
        member_spec(members.drop_last(), key)
    }
}

/// The member `key` of an object; nothing for a missing member or a value
/// that is no object.
pub open spec fn get(v: JsonValue, key: Seq<char>) -> Option<JsonValue> {
    match v {
        JsonValue::Object(ms) => member_spec(ms@, key),
        _ => None,
    }
}

/// The text of a string value.
pub open spec fn str_of(v: Option<JsonValue>) -> Option<Seq<char>> {
    match v {
        Some(JsonValue::Str(t)) => Some(t@),
        _ => None,
    }
}

/// The value of a boolean.
pub open spec fn bool_of(v: Option<JsonValue>) -> Option<bool> {
    match v {
        Some(JsonValue::Bool(b)) => Some(b),
        _ => None,
    }
}

/// A missing member or `null`.
pub open spec fn absent(v: Option<JsonValue>) -> bool {
    v is None || v == Some(JsonValue::Null)
}

/// The member `key` of an object, if it has one.
pub fn json_get<'a>(v: &'a JsonValue, key: &str) -> (r: Option<&'a JsonValue>)
    ensures
        match r {
            Some(x) => get(*v, key@) == Some(*x),
            None => get(*v, key@) is None,
        },
{
    match v {
        JsonValue::Object(ms) => {
            let mut i = ms.len();
            proof { assert(ms@.take(i as int) =~= ms@); }
            while i > 0
                invariant
                    i <= ms.len(),
                    get(*v, key@) == member_spec(ms@, key@),
                    member_spec(ms@, key@) == member_spec(ms@.take(i as int), key@),
                decreases i,
            {
                let j = i - 1;
                proof {
                    assert(ms@.take(i as int).drop_last() =~= ms@.take(j as int));
                    assert(ms@.take(i as int).last() == ms@[j as int]);
                }
                if crate::text::str_eq(ms[j].0.as_str(), key) {
                    proof {
                        let t = ms@.take(i as int);
                        assert(t.last().0@ == key@);
                        assert(member_spec(t, key@) == Some(t.last().1));
                    }
                    return Some(&ms[j].1);
                }
                i = j;
            }
            None
        }
        _ => None,
    }
}

/// The text of a string value.
pub fn json_str(v: Option<&JsonValue>) -> (r: Option<String>)
    ensures
        crate::text::opt_view(r) == str_of(match v { Some(x) => Some(*x), None => None }),
{
    match v {
        Some(JsonValue::Str(t)) => Some(t.clone()),
        _ => None,
    }
}

/// The value of a boolean.
pub fn json_bool(v: Option<&JsonValue>) -> (r: Option<bool>)
    ensures
        r == bool_of(match v { Some(x) => Some(*x), None => None }),
{
    match v {
        Some(JsonValue::Bool(b)) => Some(*b),
        _ => None,
    }
}

/// Whether a member is missing or `null`.
pub fn json_absent(v: Option<&JsonValue>) -> (r: bool)
    ensures
        r == absent(match v { Some(x) => Some(*x), None => None }),
{
    match v {
        None => true,
        Some(JsonValue::Null) => true,
        _ => false,
    }
}

}
