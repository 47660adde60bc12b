//! The JSON documents of `serde_json`, as far as the settings of the screen
//! reader need them.
use crate::text::view_of;
use vstd::prelude::*;

verus! {

/// A JSON value of `serde_json`.
#[verifier::external_type_specification]
#[verifier::external_body]
pub struct ExValue(serde_json::Value);

/// A JSON object of `serde_json`.
#[verifier::external_type_specification]
#[verifier::external_body]
#[verifier::reject_recursive_types(K)]
#[verifier::reject_recursive_types(V)]
pub struct ExMap<K, V>(serde_json::Map<K, V>);

/// An error of `serde_json`.
#[verifier::external_type_specification]
#[verifier::external_body]
pub struct ExError(serde_json::Error);

/// What a JSON object holds.
pub uninterp spec fn entries(m: serde_json::Map<String, serde_json::Value>) -> Map<
    Seq<char>,
    serde_json::Value,
>;

/// No members.
pub open spec fn no_members() -> Map<Seq<char>, serde_json::Value> {
    Map::empty()
}

/// What a JSON value holds if it is an object.
pub uninterp spec fn members(v: serde_json::Value) -> Option<Map<Seq<char>, serde_json::Value>>;

/// The JSON value that is the object with the given members.
pub uninterp spec fn json_object(m: Map<Seq<char>, serde_json::Value>) -> serde_json::Value;

/// The text that a JSON value is, if it is a text.
pub uninterp spec fn text_in(v: serde_json::Value) -> Option<Seq<char>>;

/// The number that a JSON value is, if it is a number: the bits of the double
/// that it stands for.
pub uninterp spec fn number_in(v: serde_json::Value) -> Option<u64>;

/// The JSON value that is a text.
pub uninterp spec fn json_text(s: Seq<char>) -> serde_json::Value;

/// The JSON value that is a text, or null.
pub uninterp spec fn json_text_or_null(s: Option<Seq<char>>) -> serde_json::Value;

/// The JSON value that is a truth value.
pub uninterp spec fn json_bool(b: bool) -> serde_json::Value;

/// The JSON value that a text is the notation of, if it is one.
pub uninterp spec fn json_in(s: Seq<char>) -> Option<serde_json::Value>;

/// The notation of a JSON value on several lines.
pub uninterp spec fn json_notation(v: serde_json::Value) -> Seq<char>;

/// `serde_json::from_str`: the value that `data` is the notation of. The grammar
/// is not stated.
#[verifier::external_body]
pub(crate) fn parse(data: &str) -> (r: Result<serde_json::Value, serde_json::Error>)
    ensures
        match r {
            Ok(v) => json_in(data@) == Some(v),
            Err(_) => json_in(data@) is None,
        },
{
    serde_json::from_str(data)
}

/// `serde_json::to_string_pretty`: the notation of `v` on several lines, which
/// every value has. The layout is not stated.
#[verifier::external_body]
pub(crate) fn print(v: &serde_json::Value) -> (r: Result<String, serde_json::Error>)
    ensures
        r is Ok,
        r matches Ok(s) ==> json_notation(*v) == s@,
{
    serde_json::to_string_pretty(v)
}

/// The object of `Value::Object`, if the value is one.
#[verifier::external_body]
pub(crate) fn into_object(v: serde_json::Value) -> (r: Option<
    serde_json::Map<String, serde_json::Value>,
>)
    ensures
        match r {
            Some(m) => members(v) == Some(entries(m)),
            None => members(v) is None,
        },
{
    match v {
        serde_json::Value::Object(m) => Some(m),
        _ => None,
    }
}

/// `Value::Object`: the value that is the object. It holds what the object
/// holds.
#[verifier::external_body]
pub(crate) fn from_object(m: serde_json::Map<String, serde_json::Value>) -> (r: serde_json::Value)
    ensures
        r == json_object(entries(m)),
        members(r) == Some(entries(m)),
{
    serde_json::Value::Object(m)
}

/// `Map::new`: an object without members.
#[verifier::external_body]
pub(crate) fn new_object() -> (r: serde_json::Map<String, serde_json::Value>)
    ensures
        entries(r) == no_members(),
{
    serde_json::Map::new()
}

/// `Map::remove`: takes out the member `key` and returns its value, if there is
/// one; the others stay.
#[verifier::external_body]
pub(crate) fn remove(
    m: &mut serde_json::Map<String, serde_json::Value>,
    key: &str,
) -> (r: Option<serde_json::Value>)
    ensures
        entries(*final(m)) == entries(*old(m)).remove(key@),
        r == (if entries(*old(m)).contains_key(key@) {
            Some(entries(*old(m))[key@])
        } else {
            None
        }),
{
    m.remove(key)
}

/// `Map::insert`: sets the member `key`; the others stay. It returns the value
/// that the member had.
#[verifier::external_body]
pub(crate) fn insert(
    m: &mut serde_json::Map<String, serde_json::Value>,
    key: &str,
    value: serde_json::Value,
) -> (r: Option<serde_json::Value>)
    ensures
        entries(*final(m)) == entries(*old(m)).insert(key@, value),
        r == (if entries(*old(m)).contains_key(key@) {
            Some(entries(*old(m))[key@])
        } else {
            None
        }),
{
    m.insert(key.to_string(), value)
}

/// `Value::get` with a text: the member `key` of an object, if `v` is one and
/// has it.
#[verifier::external_body]
pub(crate) fn get<'a>(v: &'a serde_json::Value, key: &str) -> (r: Option<&'a serde_json::Value>)
    ensures
        r == (match members(*v) {
            Some(m) => if m.contains_key(key@) {
                Some(&m[key@])
            } else {
                None
            },
            None => None,
        }),
{
    v.get(key)
}

/// `Value::as_str`: the text that the value is, if it is one.
#[verifier::external_body]
pub(crate) fn as_text(v: &serde_json::Value) -> (r: Option<String>)
    ensures
        match r {
            Some(s) => text_in(*v) == Some(s@),
            None => text_in(*v) is None,
        },
{
    v.as_str().map(|s| s.to_string())
}

/// `Value::as_f64`: the number that the value is, if it is one, given by the
/// bits of the double.
#[verifier::external_body]
pub(crate) fn as_number(v: &serde_json::Value) -> (r: Option<u64>)
    ensures
        r == number_in(*v),
{
    v.as_f64().map(|x| x.to_bits())
}

/// `Value::from` a text: the value that is that text.
#[verifier::external_body]
pub(crate) fn from_text(s: &str) -> (r: serde_json::Value)
    ensures
        r == json_text(s@),
        text_in(r) == Some(s@),
{
    serde_json::Value::from(s)
}

/// `Value::from` an optional text: the value that is that text, or null, which
/// is no text.
#[verifier::external_body]
pub(crate) fn from_optional_text(s: Option<String>) -> (r: serde_json::Value)
    ensures
        r == json_text_or_null(view_of(s)),
        text_in(r) == view_of(s),
{
    serde_json::Value::from(s)
}

/// `Value::from` a truth value: the value that is that truth value.
#[verifier::external_body]
pub(crate) fn from_bool(b: bool) -> (r: serde_json::Value)
    ensures
        r == json_bool(b),
{
    serde_json::Value::from(b)
}

} // verus!
