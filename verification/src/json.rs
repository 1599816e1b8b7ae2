//! JSON values, as `serde_json` holds and prints them.

use crate::table;
use crate::text;
use vstd::prelude::*;
use vstd::string::*;

verus! {

#[verifier::external_type_specification]
#[verifier::external_body]
pub struct ExJsonValue(serde_json::Value);

/// What a JSON value holds. A number is held as it is printed.
pub enum JsonView {
    Null,
    Bool(bool),
    Number(Seq<char>),
    Text(Seq<char>),
    List(Seq<JsonView>),
    Object(Map<Seq<char>, JsonView>),
}

/// What a `serde_json::Value` holds.
pub uninterp spec fn held(value: serde_json::Value) -> JsonView;

/// What `serde_json::to_string_pretty` gives for a value.
pub uninterp spec fn pretty(value: JsonView) -> Option<Seq<char>>;

/// What each of the values holds.
pub open spec fn held_all(v: Seq<serde_json::Value>) -> Seq<JsonView> {
    v.map_values(|x: serde_json::Value| held(x))
}

/// `serde_json::Value::String` holds the text.
#[verifier::external_body]
pub(crate) fn json_text(s: String) -> (r: serde_json::Value)
    ensures
        held(r) == JsonView::Text(s@),
{
    serde_json::Value::String(s)
}

/// `serde_json::Value::Bool` holds the truth value.
#[verifier::external_body]
pub(crate) fn json_bool(b: bool) -> (r: serde_json::Value)
    ensures
        held(r) == JsonView::Bool(b),
{
    serde_json::Value::Bool(b)
}

/// `serde_json::Value::Array` holds the values in order.
#[verifier::external_body]
pub(crate) fn json_list(v: Vec<serde_json::Value>) -> (r: serde_json::Value)
    ensures
        held(r) == JsonView::List(held_all(v@)),
{
    serde_json::Value::Array(v)
}

/// `serde_json::Value::Object`, made by `serde_json::Map::from_iter`, holds each key
/// with its value, where no key occurs twice.
#[verifier::external_body]
pub(crate) fn json_object(fields: Vec<(String, serde_json::Value)>) -> (r: serde_json::Value)
    requires
        table::distinct_keys(fields@),
    ensures
        held(r) == JsonView::Object(
            table::entries_map(fields@).map_values(|x: serde_json::Value| held(x)),
        ),
{
    serde_json::Value::Object(serde_json::Map::from_iter(fields))
}

/// `serde_json::to_string_pretty`: its result is a function of what the value
/// holds, since objects keep their keys sorted. Nothing else is said of it.
#[verifier::external_body]
pub(crate) fn print_pretty(value: &serde_json::Value) -> (r: Option<String>)
    ensures
        text::text_opt(r) == pretty(held(*value)),
{
    serde_json::to_string_pretty(value).ok()
}


/// `serde_json::Value::get` with a text gives the value of that key of an object,
/// and nothing where there is none or the value is no object.
#[verifier::external_body]
pub(crate) fn json_get<'a>(value: &'a serde_json::Value, key: &str) -> (r: Option<
    &'a serde_json::Value,
>)
    ensures
        match held(*value) {
            JsonView::Object(m) => match r {
                Some(v) => m.dom().contains(key@) && held(*v) == m[key@],
                None => !m.dom().contains(key@),
            },
            _ => r is None,
        },
{
    value.get(key)
}

/// `serde_json::Value::as_str` gives the text that the value is, if it is one.
#[verifier::external_body]
pub(crate) fn json_str<'a>(value: &'a serde_json::Value) -> (r: Option<&'a str>)
    ensures
        match held(*value) {
            JsonView::Text(s) => r is Some && r->0@ == s,
            _ => r is None,
        },
{
    value.as_str()
}

/// `serde_json::Value::as_object` gives the keys and values that the value has, if
/// it is an object; they come in the order of the keys.
#[verifier::external_body]
pub(crate) fn json_members(value: &serde_json::Value) -> (r: Option<
    Vec<(String, serde_json::Value)>,
>)
    ensures
        match held(*value) {
            JsonView::Object(m) => match r {
                Some(v) => members(v@, m),
                None => false,
            },
            _ => r is None,
        },
{
    match value.as_object() {
        Some(m) => Some(m.clone().into_iter().collect()),
        None => None,
    }
}

/// The entries are those of the map, each key once, in the order of the keys.
pub open spec fn members(
    v: Seq<(String, serde_json::Value)>,
    m: Map<Seq<char>, JsonView>,
) -> bool {
    &&& table::distinct_keys(v)
    &&& table::entries_map(v).map_values(|x: serde_json::Value| held(x)) == m
    &&& forall|i: int, j: int|
        0 <= i < j < v.len() ==> text::precedes((#[trigger] v[i]).0@, (#[trigger] v[j]).0@)
}

}
