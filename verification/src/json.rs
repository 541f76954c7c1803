//! JSON values, as `serde_json` holds, reads and writes them.

use serde_json::Value;
use vstd::prelude::*;

verus! {

/// A JSON value as a mathematical value. A number is given by its text.
pub enum Json {
    Null,
    Bool(bool),
    Number(Seq<char>),
    Text(Seq<char>),
    List(Seq<Json>),
    Object(Map<Seq<char>, Json>),
}

/// No fields.
pub open spec fn empty_object() -> Map<Seq<char>, Json> {
    Map::empty()
}

/// A value without numbers and without keys that begin with a dollar sign,
/// nested at most `depth` deep.
pub open spec fn plain(j: Json, depth: nat) -> bool
    decreases depth,
{
    match j {
        Json::Null | Json::Bool(_) | Json::Text(_) => true,
        Json::Number(_) => false,
        Json::List(items) => depth > 0 && forall|i: int|
            0 <= i < items.len() ==> plain(#[trigger] items[i], (depth - 1) as nat),
        Json::Object(fields) => depth > 0 && forall|k: Seq<char>| #[trigger]
            fields.contains_key(k) ==> !(k.len() > 0 && k[0] == '$') && plain(
                fields[k],
                (depth - 1) as nat,
            ),
    }
}

/// `serde_json::Value`, whose contents [`json_of`] names.
#[verifier::external_type_specification]
#[verifier::external_body]
pub struct ExValue(serde_json::Value);

/// `serde_json::Map`, whose contents [`fields_of`] names for the one instance
/// that `serde_json` gives methods to.
#[verifier::external_type_specification]
#[verifier::external_body]
#[verifier::reject_recursive_types(K)]
#[verifier::reject_recursive_types(V)]
pub struct ExMap<K, V>(serde_json::Map<K, V>);

/// `serde_json::Error`, of which only its category and its text are known.
#[verifier::external_type_specification]
#[verifier::external_body]
pub struct ExError(serde_json::Error);

/// Whether reading or writing failed, rather than the JSON being at fault.
pub uninterp spec fn io_error(e: serde_json::Error) -> bool;

/// The text that a `serde_json::Error` displays as, where it is the JSON that
/// is at fault.
pub uninterp spec fn error_text(e: serde_json::Error) -> Seq<char>;

/// What a `serde_json::Value` holds.
pub uninterp spec fn json_of(v: serde_json::Value) -> Json;

/// What a `serde_json::Map` holds.
pub uninterp spec fn fields_of(m: serde_json::Map<String, serde_json::Value>) -> Map<
    Seq<char>,
    Json,
>;

/// The text that `serde_json::to_string_pretty` writes for a value.
pub uninterp spec fn pretty_text(j: Json) -> Seq<char>;

/// The text that `serde_json::Value` displays as.
pub uninterp spec fn compact_text(j: Json) -> Seq<char>;

/// The value that `serde_json::from_str` reads from a text, where it reads
/// one.
pub uninterp spec fn parsed(text: Seq<char>) -> Option<Json>;

/// `serde_json::Value::String`: a value that holds the text.
#[verifier::external_body]
pub(crate) fn text_value(s: &str) -> (r: Value)
    ensures
        json_of(r) == Json::Text(s@),
{
    Value::String(s.to_string())
}

/// `serde_json::Value::Bool`: a value that holds the truth value.
#[verifier::external_body]
pub(crate) fn bool_value(b: bool) -> (r: Value)
    ensures
        json_of(r) == Json::Bool(b),
{
    Value::Bool(b)
}

/// `serde_json::Value::from` of an unsigned number: a value that holds the
/// number, which is written in decimal.
#[verifier::external_body]
pub(crate) fn number_value(n: usize) -> (r: Value)
    ensures
        json_of(r) == Json::Number(crate::text::decimal(n as nat)),
{
    Value::from(n)
}

/// `serde_json::Value::Null`.
#[verifier::external_body]
pub(crate) fn null_value() -> (r: Value)
    ensures
        json_of(r) == Json::Null,
{
    Value::Null
}

/// `serde_json::Value::Array`: a value that holds the items in their order.
#[verifier::external_body]
pub(crate) fn list_value(items: Vec<Value>) -> (r: Value)
    ensures
        json_of(r) == Json::List(items@.map_values(|v: Value| json_of(v))),
{
    Value::Array(items)
}

/// `serde_json::Value::Object`: a value that holds the fields.
#[verifier::external_body]
pub(crate) fn object_value(fields: serde_json::Map<String, Value>) -> (r: Value)
    ensures
        json_of(r) == Json::Object(fields_of(fields)),
{
    Value::Object(fields)
}

/// `serde_json::Map::new`: no fields.
#[verifier::external_body]
pub(crate) fn no_fields() -> (r: serde_json::Map<String, Value>)
    ensures
        fields_of(r) == empty_object(),
{
    serde_json::Map::new()
}

/// `serde_json::Map::insert`: afterwards the map holds the value under the
/// key, in place of what it held there before.
#[verifier::external_body]
pub(crate) fn put(fields: &mut serde_json::Map<String, Value>, key: &str, value: Value)
    ensures
        fields_of(*final(fields)) == fields_of(*old(fields)).insert(key@, json_of(value)),
{
    fields.insert(key.to_string(), value);
}

/// `serde_json::to_string_pretty` of a `Value`: the indented text of what the
/// value holds. It fails only on keys that are not text or where a type's own
/// `Serialize` does, and a `Value` has neither. In this build a `Map` is
/// ordered by key, so the text depends on what is held alone.
#[verifier::external_body]
pub(crate) fn pretty(v: &Value) -> (r: Result<String, serde_json::Error>)
    ensures
        r is Ok,
        r->Ok_0@ == pretty_text(json_of(*v)),
{
    serde_json::to_string_pretty(v)
}

/// `serde_json::Value`'s `Display`: the text of what the value holds, on one
/// line; two braces for an object without fields. `serde_json::from_str` reads the same value back from it, which is
/// claimed only of [`plain`] values nested at most eight deep: reading can
/// round a number, it gives up on deep nesting, and keys that begin with a
/// dollar sign can be marks of `serde_json`'s own.
#[verifier::external_body]
pub(crate) fn compact(v: &Value) -> (r: String)
    ensures
        r@ == compact_text(json_of(*v)),
        json_of(*v) == Json::Object(empty_object()) ==> r@ == "{}"@,
        plain(json_of(*v), 8) ==> parsed(r@) == Some(json_of(*v)),
{
    v.to_string()
}

/// `serde_json::Error::is_io`: whether the error comes from reading or writing.
#[verifier::external_body]
pub(crate) fn from_io(e: &serde_json::Error) -> (r: bool)
    ensures
        r == io_error(*e),
{
    e.is_io()
}

/// `serde_json::Error`'s `Display`: what is wrong with the JSON, and where. It
/// depends on the error alone, except where it passes on what reading or
/// writing said.
#[verifier::external_body]
pub(crate) fn error_words(e: &serde_json::Error) -> (r: String)
    requires
        !io_error(*e),
    ensures
        r@ == error_text(*e),
{
    e.to_string()
}

/// `serde_json::from_str` to a `Value`.
#[verifier::external_body]
pub(crate) fn parse(text: &str) -> (r: Result<Value, serde_json::Error>)
    ensures
        match r {
            Ok(v) => parsed(text@) == Some(json_of(v)),
            Err(_) => parsed(text@) is None,
        },
{
    serde_json::from_str(text)
}

} // verus!
