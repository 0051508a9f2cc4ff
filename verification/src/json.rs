//! JSON values as the library builds them, and their text.
use vstd::prelude::*;

verus! {

/// A JSON value: a string, a boolean, an array, or an object whose members
/// are kept in the order they were given.
#[derive(Debug)]
pub enum Json {
    Str(String),
    Bool(bool),
    Array(Vec<Json>),
    Object(Vec<(String, Json)>),
}

/// A JSON value by its contents.
#[verifier::ext_equal]
pub enum JsonValue {
    Str(Seq<char>),
    Bool(bool),
    Array(Seq<JsonValue>),
    Object(Seq<(Seq<char>, JsonValue)>),
}

/// The contents of `j`.
pub open spec fn json_view(j: Json) -> JsonValue
    decreases j,
{
    match j {
        Json::Str(s) => JsonValue::Str(s@),
        Json::Bool(b) => JsonValue::Bool(b),
        Json::Array(items) => JsonValue::Array(
            Seq::new(
                items@.len(),
                |i: int|
                    if 0 <= i < items@.len() {
                        json_view(items@[i])
                    } else {
                        JsonValue::Bool(false)
                    },
            ),
        ),
        Json::Object(members) => JsonValue::Object(
            Seq::new(
                members@.len(),
                |i: int|
                    if 0 <= i < members@.len() {
                        (members@[i].0@, json_view(members@[i].1))
                    } else {
                        (Seq::empty(), JsonValue::Bool(false))
                    },
            ),
        ),
    }
}

impl View for Json {
    type V = JsonValue;

    open spec fn view(&self) -> JsonValue {
        json_view(*self)
    }
}

#[verifier::external_type_specification]
#[verifier::external_body]
pub struct ExSerdeJsonValue(serde_json::Value);

/// The text that `serde_json::to_string` writes for the value `v` (object
/// members come out sorted by key, as `serde_json::Map` keeps them).
pub uninterp spec fn json_text_of(v: JsonValue) -> Seq<char>;

/// Converts `j` one for one into a `serde_json::Value`: a string into
/// `Value::String`, a boolean into `Value::Bool`, an array element by element
/// into `Value::Array`, and an object member by member into `Value::Object`.
/// Nothing is stated of the result; `json_to_string` names the text it gives.
#[verifier::external_body]
fn serde_value(j: &Json) -> serde_json::Value {
    match j {
        Json::Str(s) => serde_json::Value::String(s.clone()),
        Json::Bool(b) => serde_json::Value::Bool(*b),
        Json::Array(items) => serde_json::Value::Array(items.iter().map(serde_value).collect()),
        Json::Object(members) => serde_json::Value::Object(
            members.iter().map(|(key, value)| (key.clone(), serde_value(value))).collect(),
        ),
    }
}

/// Writes `j` as JSON text with `serde_json::to_string`, which cannot fail
/// on a `serde_json::Value`.  The contract only names the result.
#[verifier::external_body]
pub(crate) fn json_to_string(j: &Json) -> (r: String)
    ensures
        r@ == json_text_of(j@),
{
    serde_json::to_string(&serde_value(j)).unwrap()
}

} // verus!
