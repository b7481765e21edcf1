//! JSON values: the model of `serde_json::Value`, and the calls that build, read,
//! write and parse one.

use serde_json::Value;
use vstd::prelude::*;

verus! {

/// What a JSON value holds. A number that is not a non-negative 64-bit integer is
/// known only by some text of it.
pub enum Json {
    Null,
    Bool(bool),
    Unsigned(nat),
    Number(Seq<char>),
    Text(Seq<char>),
    Array(Seq<Json>),
    Object(Map<Seq<char>, Json>),
}

/// `serde_json::Value`, a JSON value.
#[verifier::external_type_specification]
#[verifier::external_body]
pub struct ExValue(Value);

/// What a `serde_json::Value` holds.
pub uninterp spec fn json_model(value: Value) -> Json;

/// The compact JSON text of a value.
pub uninterp spec fn json_encoding(value: Json) -> Seq<char>;

/// The JSON value that `serde_json::from_str` reads from a text, where the text is JSON.
pub uninterp spec fn json_parsed(text: Seq<char>) -> Option<Json>;

/// What the values of a list hold.
pub open spec fn json_models(values: Seq<Value>) -> Seq<Json> {
    values.map_values(|value: Value| json_model(value))
}

/// The value of `key` in an object.
pub open spec fn field_of(value: Json, key: Seq<char>) -> Option<Json> {
    match value {
        Json::Object(fields) => if fields.dom().contains(key) {
            Some(fields[key])
        } else {
            None
        },
        _ => None,
    }
}

/// An object with `key` set to `field`.
pub open spec fn object_with(value: Json, key: Seq<char>, field: Json) -> Json {
    match value {
        Json::Object(fields) => Json::Object(fields.insert(key, field)),
        other => other,
    }
}

/// The object without fields.
pub open spec fn empty() -> Json {
    Json::Object(Map::empty())
}

/// `serde_json::Value::String` holds the text.
#[verifier::external_body]
pub(crate) fn text_value(text: &str) -> (value: Value)
    ensures
        json_model(value) == Json::Text(text@),
{
    Value::String(text.to_string())
}

/// `serde_json::Value::Bool` holds the truth value.
#[verifier::external_body]
pub(crate) fn bool_value(flag: bool) -> (value: Value)
    ensures
        json_model(value) == Json::Bool(flag),
{
    Value::Bool(flag)
}

/// `From<u64>` of `serde_json::Value` gives the number.
#[verifier::external_body]
pub(crate) fn unsigned_value(number: u64) -> (value: Value)
    ensures
        json_model(value) == Json::Unsigned(number as nat),
{
    Value::from(number)
}

/// `serde_json::Value::Null`.
#[verifier::external_body]
pub(crate) fn null_value() -> (value: Value)
    ensures
        json_model(value) == Json::Null,
{
    Value::Null
}

/// `serde_json::Value::Array` holds the values in their order.
#[verifier::external_body]
pub(crate) fn array_value(items: Vec<Value>) -> (value: Value)
    ensures
        json_model(value) == Json::Array(json_models(items@)),
{
    Value::Array(items)
}

/// `serde_json::Map::new` makes an object without fields.
#[verifier::external_body]
pub(crate) fn empty_object() -> (value: Value)
    ensures
        json_model(value) == empty(),
{
    Value::Object(serde_json::Map::new())
}

/// `serde_json::Map::insert` sets one field and keeps the others. A value that is not an
/// object comes back as it is.
#[verifier::external_body]
pub(crate) fn with_field(object: Value, key: &str, field: Value) -> (value: Value)
    ensures
        json_model(value) == object_with(json_model(object), key@, json_model(field)),
{
    match object {
        Value::Object(mut fields) => {
            fields.insert(key.to_string(), field);
            Value::Object(fields)
        },
        other => other,
    }
}

/// `serde_json::Value::get` with a text gives the field of an object.
#[verifier::external_body]
pub(crate) fn field<'a>(value: &'a Value, key: &str) -> (found: Option<&'a Value>)
    ensures
        match found {
            Some(inner) => field_of(json_model(*value), key@) == Some(json_model(*inner)),
            None => field_of(json_model(*value), key@) is None,
        },
{
    value.get(key)
}

/// `serde_json::Value::as_str` gives the text of a text.
#[verifier::external_body]
pub(crate) fn text_in(value: &Value) -> (found: Option<&str>)
    ensures
        match found {
            Some(text) => json_model(*value) == Json::Text(text@),
            None => !(json_model(*value) is Text),
        },
{
    value.as_str()
}

/// `serde_json::Value::as_bool` gives the truth value of one.
#[verifier::external_body]
pub(crate) fn bool_in(value: &Value) -> (found: Option<bool>)
    ensures
        match found {
            Some(flag) => json_model(*value) == Json::Bool(flag),
            None => !(json_model(*value) is Bool),
        },
{
    value.as_bool()
}

/// `serde_json::Value::as_u64` gives the number where it is a non-negative 64-bit integer.
#[verifier::external_body]
pub(crate) fn unsigned_in(value: &Value) -> (found: Option<u64>)
    ensures
        match found {
            Some(number) => json_model(*value) == Json::Unsigned(number as nat),
            None => !(json_model(*value) is Unsigned),
        },
{
    value.as_u64()
}

/// `serde_json::Value::as_array` gives the items of an array; they are copied out.
#[verifier::external_body]
pub(crate) fn items_in(value: &Value) -> (found: Option<Vec<Value>>)
    ensures
        match found {
            Some(items) => json_model(*value) == Json::Array(json_models(items@)),
            None => !(json_model(*value) is Array),
        },
{
    value.as_array().cloned()
}

/// `serde_json::Value::is_object` tells whether the value is an object.
#[verifier::external_body]
pub(crate) fn is_object(value: &Value) -> (yes: bool)
    ensures
        yes == (json_model(*value) is Object),
{
    value.is_object()
}

/// `Clone` of `serde_json::Value` gives a value that holds the same.
pub assume_specification[ <Value as Clone>::clone ](value: &Value) -> (copy: Value)
    ensures
        json_model(copy) == json_model(*value),
;

/// `Display` of `serde_json::Value` writes the value as compact JSON text, the text that
/// `serde_json::to_string` gives too.
#[verifier::external_body]
pub(crate) fn json_text(value: &Value) -> (text: String)
    ensures
        text@ == json_encoding(json_model(*value)),
{
    value.to_string()
}

/// `serde_json::from_str` reads a JSON text.
#[verifier::external_body]
pub(crate) fn parse_json(text: &str) -> (value: Option<Value>)
    ensures
        match value {
            Some(read) => json_parsed(text@) == Some(json_model(read)),
            None => json_parsed(text@) is None,
        },
{
    serde_json::from_str(text).ok()
}

/// The value that holds each text of `list`.
pub open spec fn texts_model(list: Seq<Seq<char>>) -> Json {
    Json::Array(list.map_values(|text: Seq<char>| Json::Text(text)))
}

/// The JSON array of the texts of `list`.
pub(crate) fn texts_value(list: &[String]) -> (value: Value)
    ensures
        json_model(value) == texts_model(crate::text::views(list@)),
{
    let mut items: Vec<Value> = Vec::new();
    let mut i: usize = 0;
    while i < list.len()
        invariant
            i <= list@.len(),
            items@.len() == i,
            forall|k: int| 0 <= k < i ==> json_model(#[trigger] items@[k]) == Json::Text(list@[k]@),
        decreases list@.len() - i,
    {
        items.push(text_value(list[i].as_str()));
        i += 1;
    }
    assert(json_models(items@) =~= crate::text::views(list@).map_values(
        |text: Seq<char>| Json::Text(text),
    ));
    array_value(items)
}

/// The value of an optional text: the text, or null.
pub open spec fn optional_text_model(text: Option<Seq<char>>) -> Json {
    match text {
        Some(inner) => Json::Text(inner),
        None => Json::Null,
    }
}

/// The JSON value of an optional text.
pub(crate) fn optional_text_value(text: &Option<String>) -> (value: Value)
    ensures
        json_model(value) == optional_text_model(
            match text {
                Some(inner) => Some(inner@),
                None => None,
            },
        ),
{
    match text {
        Some(inner) => text_value(inner.as_str()),
        None => null_value(),
    }
}

/// An object with a field set has that value there, and every other field as before; what is
/// no object has no fields and takes none.
pub proof fn fields_are_set_alone(value: Json, key: Seq<char>, field: Json, other: Seq<char>)
    ensures
        value is Object ==> field_of(object_with(value, key, field), key) == Some(field),
        other != key ==> field_of(object_with(value, key, field), other) == field_of(value, other),
        !(value is Object) ==> object_with(value, key, field) == value && field_of(value, key)
            is None,
        field_of(empty(), key) is None,
{
}

/// A list of texts is the array of these texts in their order; an optional text is the text,
/// or null.
pub proof fn texts_stand_as_they_are(list: Seq<Seq<char>>, i: int, text: Seq<char>)
    ensures
        texts_model(list) is Array,
        texts_model(list)->Array_0.len() == list.len(),
        0 <= i < list.len() ==> texts_model(list)->Array_0[i] == Json::Text(list[i]),
        optional_text_model(Some(text)) == Json::Text(text),
        optional_text_model(None) == Json::Null,
{
}

} // verus!
