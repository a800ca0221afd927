//! JSON values, held as `serde_json` values and seen by the contracts as trees.

use vstd::prelude::*;

verus! {

/// What a JSON value is.
///
/// A number is kept apart by the form in which `serde_json` stores it: an integer that is not
/// negative, a negative integer, or a double, given by its bits.
pub enum Json {
    Null,
    Bool(bool),
    Natural(u64),
    Negative(i64),
    Double(u64),
    Text(Seq<char>),
    Array(Seq<Json>),
    Object(Map<Seq<char>, Json>),
}

/// The member of an object under a key; no other value has members.
pub open spec fn member(tree: Json, key: Seq<char>) -> Option<Json> {
    match tree {
        Json::Object(members) => if members.contains_key(key) {
            Some(members[key])
        } else {
            None
        },
        _ => None,
    }
}

/// The text of a value that is one.
pub open spec fn as_text(tree: Option<Json>) -> Option<Seq<char>> {
    match tree {
        Some(Json::Text(text)) => Some(text),
        _ => None,
    }
}

/// The integer that a value is, where it is one and not negative.
pub open spec fn as_natural(tree: Option<Json>) -> Option<u64> {
    match tree {
        Some(Json::Natural(n)) => Some(n),
        _ => None,
    }
}

/// A JSON value of `serde_json`.
#[verifier::external_type_specification]
#[verifier::external_body]
pub struct ExValue(serde_json::Value);

/// The members of a JSON object of `serde_json`.
#[verifier::external_type_specification]
#[verifier::external_body]
#[verifier::reject_recursive_types(K)]
#[verifier::reject_recursive_types(V)]
pub struct ExJsonMap<K, V>(serde_json::Map<K, V>);

/// Why `serde_json` could not read a text.
#[verifier::external_type_specification]
#[verifier::external_body]
pub struct ExJsonError(serde_json::Error);

/// What a `serde_json::Value` holds.
pub uninterp spec fn json_tree(value: serde_json::Value) -> Json;

/// What a `serde_json::Map` holds.
pub uninterp spec fn json_members(
    members: serde_json::Map<String, serde_json::Value>,
) -> Map<Seq<char>, Json>;

/// What `serde_json::from_slice` reads in a text when asked for a `serde_json::Value`: the tree,
/// or nothing where it reports an error.
pub uninterp spec fn json_parse(text: Seq<u8>) -> Option<Json>;

/// `serde_json::from_slice::<serde_json::Value>`: the value that the text denotes, or an error.
/// Both depend on the text alone. Which texts are JSON is left to the name `json_parse`.
#[verifier::external_body]
pub(crate) fn parse(text: &[u8]) -> (parsed: Result<serde_json::Value, serde_json::Error>)
    ensures
        match parsed {
            Ok(value) => json_parse(text@) == Some(json_tree(value)),
            Err(_) => json_parse(text@) is None,
        },
{
    serde_json::from_slice(text)
}

/// `serde_json::Value::get` with a string: the member of an object under that key, and nothing
/// where the value is no object or has no such member.
#[verifier::external_body]
pub(crate) fn get<'a>(
    value: &'a serde_json::Value,
    key: &str,
) -> (found: Option<&'a serde_json::Value>)
    ensures
        match found {
            Some(inner) => member(json_tree(*value), key@) == Some(json_tree(*inner)),
            None => member(json_tree(*value), key@) is None,
        },
{
    value.get(key)
}

/// `serde_json::Value::as_str`: the text of a JSON string, and nothing for any other value.
#[verifier::external_body]
pub(crate) fn as_str(value: &serde_json::Value) -> (text: Option<&str>)
    ensures
        match text {
            Some(text) => json_tree(*value) == Json::Text(text@),
            None => !(json_tree(*value) is Text),
        },
{
    value.as_str()
}

/// `serde_json::Value::as_u64`: the number that is stored as an integer and not negative, and
/// nothing for any other value.
#[verifier::external_body]
pub(crate) fn as_u64(value: &serde_json::Value) -> (number: Option<u64>)
    ensures
        match number {
            Some(n) => json_tree(*value) == Json::Natural(n),
            None => !(json_tree(*value) is Natural),
        },
{
    value.as_u64()
}

/// `serde_json::Value::String`: the JSON string with the given text.
#[verifier::external_body]
pub(crate) fn string(text: String) -> (value: serde_json::Value)
    ensures
        json_tree(value) == Json::Text(text@),
{
    serde_json::Value::String(text)
}

/// `serde_json::Value::Bool`: the JSON boolean.
#[verifier::external_body]
pub(crate) fn boolean(b: bool) -> (value: serde_json::Value)
    ensures
        json_tree(value) == Json::Bool(b),
{
    serde_json::Value::Bool(b)
}

/// `serde_json::Value::from` on a `u64`: the JSON number, stored as an integer.
#[verifier::external_body]
pub(crate) fn natural(n: u64) -> (value: serde_json::Value)
    ensures
        json_tree(value) == Json::Natural(n),
{
    serde_json::Value::from(n)
}

/// `serde_json::Value::Object`: the JSON object with the given members.
#[verifier::external_body]
pub(crate) fn object(
    members: serde_json::Map<String, serde_json::Value>,
) -> (value: serde_json::Value)
    ensures
        json_tree(value) == Json::Object(json_members(members)),
{
    serde_json::Value::Object(members)
}

/// `serde_json::Map::new`: no members.
#[verifier::external_body]
pub(crate) fn no_members() -> (members: serde_json::Map<String, serde_json::Value>)
    ensures
        (json_members(members) == Map::<Seq<char>, Json>::empty()),
{
    serde_json::Map::new()
}

/// `serde_json::Map::insert`: puts a value under a key, in place of the one that was there, which
/// is returned.
#[verifier::external_body]
pub(crate) fn insert(
    members: &mut serde_json::Map<String, serde_json::Value>,
    key: String,
    value: serde_json::Value,
) -> (replaced: Option<serde_json::Value>)
    ensures
        json_members(*final(members)) == json_members(*old(members)).insert(key@, json_tree(value)),
        match replaced {
            Some(before) => json_members(*old(members)).contains_key(key@) && json_tree(before)
                == json_members(*old(members))[key@],
            None => !json_members(*old(members)).contains_key(key@),
        },
{
    members.insert(key, value)
}

/// The text of the member under a key, where there is such a member and it is a string.
pub fn text_member(value: &serde_json::Value, key: &str) -> (found: Option<String>)
    ensures
        match found {
            Some(text) => as_text(member(json_tree(*value), key@)) == Some(text@),
            None => as_text(member(json_tree(*value), key@)) is None,
        },
{
    match get(value, key) {
        Some(inner) => match as_str(inner) {
            Some(text) => Some(text.to_string()),
            None => None,
        },
        None => None,
    }
}

/// The number of the member under a key, where there is such a member and it is an integer that
/// is not negative.
pub fn natural_member(value: &serde_json::Value, key: &str) -> (found: Option<u64>)
    ensures
        found == as_natural(member(json_tree(*value), key@)),
{
    match get(value, key) {
        Some(inner) => as_u64(inner),
        None => None,
    }
}

/// A value has a text under a key if and only if it is an object whose member under that key is that
/// text.
pub proof fn law_text_member(tree: Json, key: Seq<char>, text: Seq<char>)
    ensures
        as_text(member(tree, key)) == Some(text) <==> {
            &&& tree matches Json::Object(members)
            &&& members.contains_key(key)
            &&& members[key] == Json::Text(text)
        },
        as_text(member(tree, key)) is None <==> !(tree matches Json::Object(members)
            && members.contains_key(key) && members[key] is Text),
{
}

/// A value has a number under a key if and only if it is an object whose member under that key is
/// that integer, not negative.
pub proof fn law_natural_member(tree: Json, key: Seq<char>, number: u64)
    ensures
        as_natural(member(tree, key)) == Some(number) <==> {
            &&& tree matches Json::Object(members)
            &&& members.contains_key(key)
            &&& members[key] == Json::Natural(number)
        },
        as_natural(member(tree, key)) is None <==> !(tree matches Json::Object(members)
            && members.contains_key(key) && members[key] is Natural),
{
}

} // verus!
