//! JSON values carried by nodes, edges and graphs.
//!
//! A JSON value is a `serde_json::Value`. The library does not look inside
//! one except through the observers named here, each of which stands for an
//! accessor of `serde_json::Value`.

use vstd::prelude::*;

verus! {

#[verifier::external_type_specification]
#[verifier::external_body]
pub struct ExJsonValue(serde_json::Value);

/// The members of a JSON object by key, as `serde_json::Value::as_object`
/// shows them; `None` for a value that is not an object.
pub uninterp spec fn json_object(value: serde_json::Value) -> Option<
    Map<Seq<char>, serde_json::Value>,
>;

/// The text of a JSON string, as `serde_json::Value::as_str` shows it; `None`
/// for a value that is not a string.
pub uninterp spec fn json_string(value: serde_json::Value) -> Option<Seq<char>>;

/// The items of a JSON array, as `serde_json::Value::as_array` shows them;
/// `None` for a value that is not an array.
pub uninterp spec fn json_array(value: serde_json::Value) -> Option<Seq<serde_json::Value>>;

/// The number that a JSON value holds where it is a non-negative integer, as
/// `serde_json::Value::as_u64` shows it; `None` for any other value.
pub uninterp spec fn json_u64(value: serde_json::Value) -> Option<u64>;

/// Whether `value` is the JSON object whose one member, `id`, is the JSON
/// string with the text `id`.
pub open spec fn is_id_object(value: serde_json::Value, id: Seq<char>) -> bool {
    &&& json_object(value) matches Some(members)
    &&& members.dom() == set!["id"@]
    &&& json_string(members["id"@]) == Some(id)
}

/// Whether `value` is the JSON object without members.
pub open spec fn is_empty_object(value: serde_json::Value) -> bool {
    json_object(value) == Some(Map::<Seq<char>, serde_json::Value>::empty())
}

/// `Clone` of `serde_json::Value` is derived: the copy is the same value.
pub assume_specification[ <serde_json::Value as Clone>::clone ](value: &serde_json::Value) -> (copy:
    serde_json::Value)
    ensures
        copy == *value,
;

/// `serde_json::Value::is_object` says whether `as_object` gives a map.
pub assume_specification[ serde_json::Value::is_object ](value: &serde_json::Value) -> (yes: bool)
    ensures
        yes == json_object(*value).is_some(),
;

/// The JSON object without members: `Value::Object` of `serde_json::Map::new`.
#[verifier::external_body]
pub(crate) fn empty_object() -> (value: serde_json::Value)
    ensures
        json_object(value) == Some(Map::<Seq<char>, serde_json::Value>::empty()),
{
    serde_json::Value::Object(serde_json::Map::new())
}

/// The JSON string with the given text: `Value::String`.
#[verifier::external_body]
pub(crate) fn string_value(text: String) -> (value: serde_json::Value)
    ensures
        json_string(value) == Some(text@),
{
    serde_json::Value::String(text)
}

/// The JSON array with the given items: `Value::Array`.
#[verifier::external_body]
pub(crate) fn array_value(items: Vec<serde_json::Value>) -> (value: serde_json::Value)
    ensures
        json_array(value) == Some(items@),
{
    serde_json::Value::Array(items)
}

/// The JSON number for a `u64`: `Value::from`, which keeps the integer.
#[verifier::external_body]
pub(crate) fn number_value(n: u64) -> (value: serde_json::Value)
    ensures
        json_u64(value) == Some(n),
{
    serde_json::Value::from(n)
}

/// Puts a member into a JSON object with `serde_json::Map::insert`: a member
/// with that key is replaced, the others stay.
#[verifier::external_body]
pub(crate) fn with_member(
    object: serde_json::Value,
    key: String,
    member: serde_json::Value,
) -> (value: serde_json::Value)
    requires
        json_object(object).is_some(),
    ensures
        json_object(value) == Some(json_object(object).unwrap().insert(key@, member)),
{
    match object {
        serde_json::Value::Object(mut members) => {
            members.insert(key, member);
            serde_json::Value::Object(members)
        },
        other => other,
    }
}

/// The JSON object `{"id": <id>}`.
pub(crate) fn id_object(id: &str) -> (value: serde_json::Value)
    ensures
        is_id_object(value, id@),
{
    let value = with_member(empty_object(), "id".to_owned(), string_value(id.to_owned()));
    assert(json_object(value).unwrap().dom() =~= set!["id"@]);
    value
}

} // verus!
