//! Text-level operations the bridge delegates to serde_json and to std's
//! string routines.
//!
//! Each function here goes from plain values to plain values and returns a
//! result that depends on its arguments alone, so the result is given a name
//! (an uninterpreted spec function) that the callers' contracts speak of.

use vstd::prelude::*;

verus! {

/// The compact re-serialization of a piece of text that parses as JSON, or
/// `None` where it does not parse.
pub uninterp spec fn json_normal(s: Seq<char>) -> Option<Seq<char>>;

/// The compact serialization of a JSON object parsed from `s` with the string
/// `val` inserted (or overwritten) at `key`, or `None` where `s` does not
/// parse as a JSON object.
pub uninterp spec fn json_with_field(s: Seq<char>, key: Seq<char>, val: Seq<char>) -> Option<
    Seq<char>,
>;

/// The string value found at `key` in the JSON value parsed from `s`, or
/// `None` where `s` does not parse, has no such field, or the field is not a
/// string.
pub uninterp spec fn json_string_field(s: Seq<char>, key: Seq<char>) -> Option<Seq<char>>;

/// The characters of a byte sequence read as UTF-8, or `None` where the bytes
/// are not valid UTF-8.
pub uninterp spec fn utf8_decoded(b: Seq<u8>) -> Option<Seq<char>>;

/// The characters of a byte sequence read as UTF-8, with invalid sequences
/// replaced by the replacement character.
pub uninterp spec fn lossy_decoded(b: Seq<u8>) -> Seq<char>;

/// The text with leading and trailing whitespace removed.
pub uninterp spec fn trimmed(s: Seq<char>) -> Seq<char>;

/// Relies on serde_json::from_str to decide whether the line is valid JSON
/// and on serde_json::Value::to_string for the compact form; both results
/// depend on the text alone.
#[verifier::external_body]
pub fn json_normalize(line: &str) -> (r: Option<String>)
    ensures
        r is Some <==> json_normal(line@) is Some,
        r is Some ==> r->0@ == json_normal(line@)->0,
{
    match serde_json::from_str::<serde_json::Value>(line) {
        Ok(v) => Some(v.to_string()),
        Err(_) => None,
    }
}

/// Relies on serde_json::from_str, serde_json::Value::as_object_mut,
/// serde_json::Map::insert and serde_json::Value::to_string: the text parses
/// to an object exactly when from_str succeeds and as_object_mut is Some, and
/// the serialized result depends on the three arguments alone.
#[verifier::external_body]
pub fn json_set_string_field(text: &str, key: &str, val: &str) -> (r: Option<String>)
    ensures
        r is Some <==> json_with_field(text@, key@, val@) is Some,
        r is Some ==> r->0@ == json_with_field(text@, key@, val@)->0,
{
    let mut v: serde_json::Value = match serde_json::from_str(text) {
        Ok(v) => v,
        Err(_) => return None,
    };
    match v.as_object_mut() {
        Some(obj) => {
            obj.insert(key.to_string(), serde_json::Value::String(val.to_string()));
            Some(v.to_string())
        },
        None => None,
    }
}

/// Relies on serde_json::from_str, serde_json::Value::get and
/// serde_json::Value::as_str: the extracted field is a function of the text
/// and the key alone, and is `Some` exactly when the text parses and holds a
/// string at that key.
#[verifier::external_body]
pub fn json_get_string_field(text: &str, key: &str) -> (r: Option<String>)
    ensures
        r is Some <==> json_string_field(text@, key@) is Some,
        r is Some ==> r->0@ == json_string_field(text@, key@)->0,
{
    let v: serde_json::Value = match serde_json::from_str(text) {
        Ok(v) => v,
        Err(_) => return None,
    };
    match v.get(key) {
        Some(field) => field.as_str().map(|s| s.to_string()),
        None => None,
    }
}

/// Relies on core::str::from_utf8: succeeds exactly on valid UTF-8, and the
/// decoded text is a function of the bytes alone.
#[verifier::external_body]
pub fn utf8_text(bytes: &[u8]) -> (r: Option<String>)
    ensures
        r is Some <==> utf8_decoded(bytes@) is Some,
        r is Some ==> r->0@ == utf8_decoded(bytes@)->0,
{
    match core::str::from_utf8(bytes) {
        Ok(s) => Some(s.to_string()),
        Err(_) => None,
    }
}

/// Relies on String::from_utf8_lossy: the decoded text is a function of the
/// bytes alone.
#[verifier::external_body]
pub fn lossy_text(bytes: &[u8]) -> (r: String)
    ensures
        r@ == lossy_decoded(bytes@),
{
    String::from_utf8_lossy(bytes).into_owned()
}

/// Relies on str::trim: the trimmed text is a function of the text alone and
/// is never longer than it.
#[verifier::external_body]
pub fn trim_text(s: &str) -> (r: String)
    ensures
        r@ == trimmed(s@),
        r@.len() <= s@.len(),
{
    s.trim().to_string()
}

} // verus!
