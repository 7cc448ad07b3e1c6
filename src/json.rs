//! A JSON document tree owned by the library, with parsing and printing
//! delegated to serde_json.
use vstd::prelude::*;

verus! {

#[verifier::external_type_specification]
#[verifier::external_body]
pub struct ExNumber(serde_json::Number);

#[verifier::external_type_specification]
#[verifier::external_body]
pub struct ExValue(serde_json::Value);

/// A parsed JSON value. Object members keep the order in which the parser
/// yields them; numbers are carried through untouched.
#[derive(Debug)]
pub enum Json {
    Null,
    Bool(bool),
    Number(serde_json::Number),
    Str(String),
    Array(Vec<Json>),
    Object(Vec<(String, Json)>),
}

/// What serde_json makes of a text: `None` when it is not valid JSON.
pub uninterp spec fn parsed_json(text: Seq<char>) -> Option<Json>;

/// serde_json's compact serialisation of a value.
pub uninterp spec fn json_text(v: Json) -> Seq<char>;

/// serde_json's indented serialisation of a value.
pub uninterp spec fn json_pretty(v: Json) -> Seq<char>;

/// Converts a serde_json value into the library's tree, member for member.
/// Relies on serde_json::Value's variants and on its object map yielding
/// members in key order.
#[verifier::external_body]
fn from_value(v: serde_json::Value) -> Json {
    match v {
        serde_json::Value::Null => Json::Null,
        serde_json::Value::Bool(b) => Json::Bool(b),
        serde_json::Value::Number(n) => Json::Number(n),
        serde_json::Value::String(s) => Json::Str(s),
        serde_json::Value::Array(a) => Json::Array(a.into_iter().map(from_value).collect()),
        serde_json::Value::Object(o) => Json::Object(
            o.into_iter().map(|(k, x)| (k, from_value(x))).collect(),
        ),
    }
}

/// Converts the library's tree back into a serde_json value, member for
/// member. Relies on serde_json::Value's variants.
#[verifier::external_body]
fn to_value(v: &Json) -> serde_json::Value {
    match v {
        Json::Null => serde_json::Value::Null,
        Json::Bool(b) => serde_json::Value::Bool(*b),
        Json::Number(n) => serde_json::Value::Number(n.clone()),
        Json::Str(s) => serde_json::Value::String(s.clone()),
        Json::Array(a) => serde_json::Value::Array(a.iter().map(to_value).collect()),
        Json::Object(o) => serde_json::Value::Object(
            o.iter().map(|(k, x)| (k.clone(), to_value(x))).collect(),
        ),
    }
}

/// Relies on serde_json::from_str into a `Value`: the outcome depends on the
/// text alone.
#[verifier::external_body]
pub fn parse_json(text: &str) -> (r: Option<Json>)
    ensures
        r == parsed_json(text@),
{
    serde_json::from_str::<serde_json::Value>(text).ok().map(from_value)
}

/// Relies on serde_json::to_string: the compact text of a value. Writing a
/// `Value` into a string does not fail.
#[verifier::external_body]
pub fn compact_text(v: &Json) -> (r: String)
    ensures
        r@ == json_text(*v),
{
    serde_json::to_string(&to_value(v)).unwrap_or_default()
}

/// Relies on serde_json::to_string_pretty: the indented text of a value.
/// Writing a `Value` into a string does not fail.
#[verifier::external_body]
pub fn pretty_text(v: &Json) -> (r: String)
    ensures
        r@ == json_pretty(*v),
{
    serde_json::to_string_pretty(&to_value(v)).unwrap_or_default()
}

} // verus!
