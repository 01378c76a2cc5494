//! The JSON documents that the inspector prints, read through `serde_json`.
use vstd::prelude::*;

verus! {

#[verifier::external_type_specification]
#[verifier::external_body]
pub struct ExJsonValue(serde_json::Value);

#[verifier::external_type_specification]
#[verifier::external_body]
pub struct ExJsonError(serde_json::Error);

/// The document that `serde_json::from_slice` reads from the bytes, if they
/// hold one.
pub uninterp spec fn json_document(b: Seq<u8>) -> Option<serde_json::Value>;

/// The member under `key` that `serde_json::Value::get` finds in an object.
pub uninterp spec fn json_member(v: serde_json::Value, key: Seq<char>) -> Option<serde_json::Value>;

/// The elements that `serde_json::Value::as_array` finds in an array.
pub uninterp spec fn json_elements(v: serde_json::Value) -> Option<Seq<serde_json::Value>>;

/// The text that `serde_json::Value::as_str` finds in a string value.
pub uninterp spec fn json_text(v: serde_json::Value) -> Option<Seq<char>>;

/// The integer that `serde_json::Value::as_i64` finds in a number value.
pub uninterp spec fn json_integer(v: serde_json::Value) -> Option<i64>;

/// Relies on `serde_json::from_slice`: the document the bytes hold, or the
/// reason they hold none.
#[verifier::external_body]
pub(crate) fn parse_json(b: &[u8]) -> (r: Result<serde_json::Value, serde_json::Error>)
    ensures
        r is Ok <==> json_document(b@) is Some,
        r matches Ok(v) ==> json_document(b@) == Some(v),
{
    serde_json::from_slice::<serde_json::Value>(b)
}

/// Relies on the `Display` impl of `serde_json::Error`: a description of why
/// the bytes were refused.
#[verifier::external_body]
pub(crate) fn json_error_text(e: &serde_json::Error) -> String {
    e.to_string()
}

/// Relies on `serde_json::Value::get` with a string key: the member of an
/// object, and `None` for any other value.
#[verifier::external_body]
pub(crate) fn member<'a>(v: &'a serde_json::Value, key: &str) -> (r: Option<&'a serde_json::Value>)
    ensures
        match r {
            Some(x) => json_member(*v, key@) == Some(*x),
            None => json_member(*v, key@) is None,
        },
{
    v.get(key)
}

/// Relies on `serde_json::Value::as_array`: the elements of an array value.
#[verifier::external_body]
pub(crate) fn elements(v: &serde_json::Value) -> (r: Option<&Vec<serde_json::Value>>)
    ensures
        match r {
            Some(a) => json_elements(*v) == Some(a@),
            None => json_elements(*v) is None,
        },
{
    v.as_array()
}

/// Relies on `serde_json::Value::as_str`: the text of a string value.
#[verifier::external_body]
pub(crate) fn text(v: &serde_json::Value) -> (r: Option<&str>)
    ensures
        match r {
            Some(t) => json_text(*v) == Some(t@),
            None => json_text(*v) is None,
        },
{
    v.as_str()
}

/// Relies on `serde_json::Value::as_i64`: a number value that is an integer
/// in the range of `i64`.
#[verifier::external_body]
pub(crate) fn integer(v: &serde_json::Value) -> (r: Option<i64>)
    ensures
        r == json_integer(*v),
{
    v.as_i64()
}

/// The member under `key` of a value that may be absent.
pub open spec fn member_of(v: Option<serde_json::Value>, key: Seq<char>) -> Option<serde_json::Value> {
    match v {
        Some(x) => json_member(x, key),
        None => None,
    }
}

/// The text of a value that may be absent, or `default`.
pub open spec fn text_or(v: Option<serde_json::Value>, default: Seq<char>) -> Seq<char> {
    match v {
        Some(x) => match json_text(x) {
            Some(t) => t,
            None => default,
        },
        None => default,
    }
}

/// The integer of a value that may be absent.
pub open spec fn integer_of(v: Option<serde_json::Value>) -> Option<i64> {
    match v {
        Some(x) => json_integer(x),
        None => None,
    }
}

/// The elements of the array under `key`, or none.
pub open spec fn array_member(v: serde_json::Value, key: Seq<char>) -> Seq<serde_json::Value> {
    match json_member(v, key) {
        Some(a) => match json_elements(a) {
            Some(s) => s,
            None => Seq::empty(),
        },
        None => Seq::empty(),
    }
}

/// Reads the text of a possibly absent value, or `default`.
pub(crate) fn text_or_default(v: Option<&serde_json::Value>, default: &str) -> (r: String)
    ensures
        r@ == text_or(
            match v {
                Some(x) => Some(*x),
                None => None,
            },
            default@,
        ),
{
    match v {
        Some(x) => match text(x) {
            Some(t) => t.to_owned(),
            None => default.to_owned(),
        },
        None => default.to_owned(),
    }
}

/// Reads the elements of the array under `key`; an absent member or one that
/// is no array reads as no elements.
pub(crate) fn array_member_of<'a>(v: &'a serde_json::Value, key: &str) -> (r: Option<
    &'a Vec<serde_json::Value>,
>)
    ensures
        match r {
            Some(a) => a@ == array_member(*v, key@),
            None => array_member(*v, key@).len() == 0,
        },
{
    match member(v, key) {
        Some(a) => elements(a),
        None => None,
    }
}

} // verus!
