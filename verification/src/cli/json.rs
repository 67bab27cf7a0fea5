//! JSON values and their printed form, as `serde_json` holds and prints them.

use vstd::prelude::*;

verus! {

/// A value of `serde_json`.
#[verifier::external_type_specification]
#[verifier::external_body]
pub struct ExJsonValue(serde_json::Value);

/// What a JSON value holds: text, a whole number, a list, or members by name.
pub enum Json {
    Text(Seq<char>),
    Whole(int),
    List(Seq<Json>),
    Object(Map<Seq<char>, Json>),
}

/// What a value of `serde_json` holds.
pub uninterp spec fn holds(value: serde_json::Value) -> Json;

/// The printed form of a JSON value, indented and with members in the order of their
/// names.
pub uninterp spec fn printed(json: Json) -> Seq<char>;

/// The members that some fields make up.
pub open spec fn members(fields: Seq<(String, serde_json::Value)>) -> Map<Seq<char>, Json>
    decreases fields.len(),
{
    if fields.len() == 0 {
        Map::empty()
    } else {
        members(fields.drop_last()).insert(fields.last().0@, holds(fields.last().1))
    }
}

/// Whether no two fields go by the same name.
pub open spec fn distinct_names(fields: Seq<(String, serde_json::Value)>) -> bool {
    forall|i: int, j: int|
        0 <= i < j < fields.len() ==> (#[trigger] fields[i]).0@ != (#[trigger] fields[j]).0@
}

/// A text, by the conversion of `&str` into `serde_json::Value`. It holds that text.
#[verifier::external_body]
pub(crate) fn text_value(text: &str) -> (value: serde_json::Value)
    ensures
        holds(value) == Json::Text(text@),
{
    serde_json::Value::from(text)
}

/// A whole number, by the conversion of `i64` into `serde_json::Value`. It holds that
/// number.
#[verifier::external_body]
pub(crate) fn whole_value(number: i64) -> (value: serde_json::Value)
    ensures
        holds(value) == Json::Whole(number as int),
{
    serde_json::Value::from(number)
}

/// A list, by the conversion of `Vec` into `serde_json::Value`. It holds what the items
/// hold, in their order.
#[verifier::external_body]
pub(crate) fn list_value(items: Vec<serde_json::Value>) -> (value: serde_json::Value)
    ensures
        holds(value) == Json::List(items@.map_values(|item: serde_json::Value| holds(item))),
{
    serde_json::Value::from(items)
}

/// An object, by collecting fields into `serde_json::Map`. It holds each field under its
/// name. Of two fields with one name either might stay, so there are none.
#[verifier::external_body]
pub(crate) fn object_value(fields: Vec<(String, serde_json::Value)>) -> (value: serde_json::Value)
    requires
        distinct_names(fields@),
    ensures
        holds(value) == Json::Object(members(fields@)),
{
    serde_json::Value::Object(fields.into_iter().collect())
}

/// Prints a value with `serde_json::to_string_pretty`, which fails on no such value: its
/// members have text for names. What is printed depends on what the value holds alone;
/// which characters are escaped, and how lines are broken, is not stated.
#[verifier::external_body]
pub(crate) fn print_value(value: &serde_json::Value) -> (text: String)
    ensures
        text@ == printed(holds(*value)),
{
    serde_json::to_string_pretty(value).unwrap()
}

/// One field.
pub(crate) fn field(name: &str, value: serde_json::Value) -> (pair: (String, serde_json::Value))
    ensures
        pair.0@ == name@,
        pair.1 == value,
{
    (name.to_owned(), value)
}

} // verus!
