//! What this library uses of `serde_json`, with what it takes for granted of it.

use crate::tags::TagMap;
use vstd::prelude::*;

verus! {

/// `serde_json::Value`: any JSON value.
#[verifier::external_type_specification]
#[verifier::external_body]
pub struct ExJsonValue(serde_json::Value);

/// `serde_json::Map`: a JSON object.
#[verifier::external_type_specification]
#[verifier::external_body]
#[verifier::reject_recursive_types(K)]
#[verifier::reject_recursive_types(V)]
pub struct ExJsonMap<K, V>(serde_json::Map<K, V>);

/// `serde_json::Error`.
#[verifier::external_type_specification]
#[verifier::external_body]
pub struct ExJsonError(serde_json::Error);

/// The members of a JSON object as a map: each key with the text of its
/// value where that is a string, and with `None` where it is not.
pub type JsonMembers = Map<Seq<char>, Option<Seq<char>>>;

/// The text of a JSON string value; `None` for a value of any other kind.
pub uninterp spec fn json_text(value: serde_json::Value) -> Option<Seq<char>>;

/// The members of a JSON object: each key with the text of its value.
pub uninterp spec fn json_members(object: serde_json::Map<String, serde_json::Value>) -> Map<Seq<char>, Option<Seq<char>>>;

/// The members of a JSON object that has one string member for each pair of
/// `pairs`.
pub open spec fn string_members(pairs: TagMap) -> JsonMembers {
    Map::new(|key: Seq<char>| pairs.contains_key(key), |key: Seq<char>| Some(pairs[key]))
}

/// `Map::new` makes an object without members.
pub assume_specification[ serde_json::Map::<String, serde_json::Value>::new ]() -> (object: serde_json::Map<String, serde_json::Value>)
    ensures
        json_members(object).dom() == Set::<Seq<char>>::empty(),
;

/// `Map::insert` sets the member `key` to `value`, whether or not the object
/// had such a member, and leaves the other members as they were.
pub assume_specification[ serde_json::Map::<String, serde_json::Value>::insert ](
    object: &mut serde_json::Map<String, serde_json::Value>,
    key: String,
    value: serde_json::Value,
) -> (previous: Option<serde_json::Value>)
    ensures
        json_members(*final(object)) == json_members(*old(object)).insert(key@, json_text(value)),
;

/// `serde_json::to_value` on a string: the serializer behind it turns a
/// string into the JSON string of the same text, and has no failing path for
/// one.
#[verifier::external_body]
pub(crate) fn string_to_json(text: &String) -> (made: Result<serde_json::Value, serde_json::Error>)
    ensures
        made is Ok,
        json_text(made->Ok_0) == Some(text@),
{
    serde_json::to_value(text)
}

} // verus!
