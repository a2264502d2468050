//! JSON documents, read and written by `serde_json`.
//!
//! Nothing here is proved: each function hands its work to `serde_json`, and
//! its contract says what that crate does. The rest of the library sees a
//! document only through these contracts.

use vstd::prelude::*;

verus! {

#[verifier::external_type_specification]
#[verifier::external_body]
pub struct ExValue(serde_json::Value);

#[verifier::external_type_specification]
#[verifier::external_body]
pub struct ExError(serde_json::Error);

/// A JSON document as contracts see it. An object is a map: it holds each
/// name once, and the order of its members does not count.
pub enum JsonModel {
    Null,
    Bool(bool),
    /// A number, as `serde_json` writes it.
    Number(Seq<char>),
    Text(Seq<char>),
    Array(Seq<JsonModel>),
    Object(Map<Seq<char>, JsonModel>),
}

/// The document that a `serde_json::Value` holds.
pub uninterp spec fn json_model(value: serde_json::Value) -> JsonModel;

/// The document that `serde_json::from_str` reads from a text, or `None`
/// where it refuses the text.
pub uninterp spec fn json_parse(text: Seq<char>) -> Option<JsonModel>;

/// The text that `serde_json::to_string` writes for a document, or `None`
/// where it fails.
pub uninterp spec fn json_text(document: JsonModel) -> Option<Seq<char>>;

/// `serde_json::from_str`, reading a `Value`: the document that the text
/// holds, or the crate's error where the text is not JSON.
#[verifier::external_body]
pub(crate) fn parse_value(text: &str) -> (parsed: Result<serde_json::Value, serde_json::Error>)
    ensures
        match parsed {
            Ok(value) => json_parse(text@) == Some(json_model(value)),
            Err(_) => json_parse(text@) is None,
        },
{
    serde_json::from_str::<serde_json::Value>(text)
}

/// `serde_json::to_string` of a `Value`: the document's compact text, or
/// the crate's error where the serializer reports one.
#[verifier::external_body]
pub(crate) fn render_value(value: &serde_json::Value) -> (text: Result<String, serde_json::Error>)
    ensures
        match text {
            Ok(written) => json_text(json_model(*value)) == Some(written@),
            Err(_) => json_text(json_model(*value)) is None,
        },
{
    serde_json::to_string(value)
}

/// `Value::get` with a string index: the member called `key` where the
/// value is an object that has one, and `None` in every other case.
#[verifier::external_body]
pub(crate) fn member<'a>(value: &'a serde_json::Value, key: &str) -> (found: Option<
    &'a serde_json::Value,
>)
    ensures
        match found {
            Some(inner) => json_model(*value) matches JsonModel::Object(members)
                && members.contains_key(key@) && members[key@] == json_model(*inner),
            None => !(json_model(*value) matches JsonModel::Object(members)
                && members.contains_key(key@)),
        },
{
    value.get(key)
}

/// `Value::as_object` and `Map::len`: the number of members where the value
/// is an object, and `None` where it is not.
#[verifier::external_body]
pub(crate) fn member_count(value: &serde_json::Value) -> (count: Option<usize>)
    ensures
        match count {
            Some(n) => json_model(*value) matches JsonModel::Object(members)
                && members.dom().finite() && members.len() == n,
            None => !(json_model(*value) is Object),
        },
{
    value.as_object().map(serde_json::Map::len)
}

/// `Value::as_str`: the text where the value is a string, and `None` where
/// it is not.
#[verifier::external_body]
pub(crate) fn text<'a>(value: &'a serde_json::Value) -> (found: Option<&'a str>)
    ensures
        match found {
            Some(s) => json_model(*value) == JsonModel::Text(s@),
            None => !(json_model(*value) is Text),
        },
{
    value.as_str()
}

/// `Value::is_null`.
#[verifier::external_body]
pub(crate) fn is_null(value: &serde_json::Value) -> (null: bool)
    ensures
        null == (json_model(*value) is Null),
{
    value.is_null()
}

/// `Value::Null`.
#[verifier::external_body]
pub(crate) fn null_value() -> (value: serde_json::Value)
    ensures
        json_model(value) == JsonModel::Null,
{
    serde_json::Value::Null
}

/// `Value::String`.
#[verifier::external_body]
pub(crate) fn text_value(text: String) -> (value: serde_json::Value)
    ensures
        json_model(value) == JsonModel::Text(text@),
{
    serde_json::Value::String(text)
}

/// `Map::new` in `Value::Object`: the object without members.
#[verifier::external_body]
pub(crate) fn empty_object() -> (value: serde_json::Value)
    ensures
        json_model(value) == JsonModel::Object(Map::empty()),
{
    serde_json::Value::Object(serde_json::Map::new())
}

/// `Value::as_object_mut` and `Map::insert`: the object with `member` under
/// `key`, in place of what it had there. A value that is no object comes
/// back as it is.
#[verifier::external_body]
pub(crate) fn with_member(
    object: serde_json::Value,
    key: String,
    member: serde_json::Value,
) -> (value: serde_json::Value)
    ensures
        json_model(value) == match json_model(object) {
            JsonModel::Object(members) => JsonModel::Object(
                members.insert(key@, json_model(member)),
            ),
            other => other,
        },
{
    let mut object = object;
    if let Some(members) = object.as_object_mut() {
        members.insert(key, member);
    }
    object
}

} // verus!
