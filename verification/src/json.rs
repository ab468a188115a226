//! JSON text, read and written through `serde_json`.
//!
//! The items marked `external_body` here are believed, not proved: each
//! states what one function of `serde_json` (or of std) does.

use vstd::prelude::*;
use vstd::utf8::*;
use vstd::string::StringSliceAdditionalSpecFns;

verus! {

/// A parsed JSON document, opaque to the verifier.
#[verifier::external_type_specification]
#[verifier::external_body]
pub struct ExJsonValue(serde_json::Value);

/// The document that `serde_json::from_str` reads from `text`, or `None`
/// where it rejects the text. Of a key that an object repeats, the document
/// holds the last value.
pub uninterp spec fn json_parse(text: Seq<char>) -> Option<serde_json::Value>;

/// The members of a JSON object by key, or `None` for a value of another kind.
pub uninterp spec fn json_members(value: serde_json::Value) -> Option<
    Map<Seq<char>, serde_json::Value>,
>;

/// The characters of a JSON string, or `None` for a value of another kind.
pub uninterp spec fn json_text(value: serde_json::Value) -> Option<Seq<char>>;

/// The character for a single hexadecimal digit, in lower case.
pub open spec fn hex_digit(value: nat) -> char
    recommends
        value < 16,
{
    seq!['0', '1', '2', '3', '4', '5', '6', '7', '8', '9', 'a', 'b', 'c', 'd', 'e', 'f'][value as int]
}

/// How a character stands inside a JSON string literal: the quote, the
/// backslash and the control characters below U+0020 are escaped, the five
/// usual ones by their letter and the others as `\u00` and two hexadecimal
/// digits; every other character stands for itself.
pub open spec fn json_escaped(c: char) -> Seq<char> {
    if c == '"' {
        seq!['\\', '"']
    } else if c == '\\' {
        seq!['\\', '\\']
    } else if c == '\u{8}' {
        seq!['\\', 'b']
    } else if c == '\t' {
        seq!['\\', 't']
    } else if c == '\n' {
        seq!['\\', 'n']
    } else if c == '\u{c}' {
        seq!['\\', 'f']
    } else if c == '\r' {
        seq!['\\', 'r']
    } else if (c as u32) < 0x20 {
        seq!['\\', 'u', '0', '0', hex_digit(c as nat / 16), hex_digit(c as nat % 16)]
    } else {
        seq![c]
    }
}

/// The JSON string literal for `text`: a quote, the characters of `text`,
/// each as `json_escaped` gives it, and a quote.
pub open spec fn json_quoted(text: Seq<char>) -> Seq<char> {
    seq!['"'] + text.map_values(|c: char| json_escaped(c)).flatten() + seq!['"']
}

/// `std::str::from_utf8`: the text that `bytes` encode, where they are valid
/// UTF-8, and `None` where they are not.
#[verifier::external_body]
pub(crate) fn utf8_text(bytes: &[u8]) -> (text: Option<&str>)
    ensures
        text is Some <==> valid_utf8(bytes@),
        text matches Some(t) ==> t.spec_bytes() == bytes@,
{
    std::str::from_utf8(bytes).ok()
}

/// `serde_json::from_str` at `serde_json::Value`: parses a whole JSON text.
/// The outcome depends on the text alone.
#[verifier::external_body]
pub(crate) fn parse_json(text: &str) -> (document: Option<serde_json::Value>)
    ensures
        document == json_parse(text@),
{
    serde_json::from_str::<serde_json::Value>(text).ok()
}

/// `serde_json::Value::as_object` followed by `Map::len`: how many members an
/// object has; `None` for a value that is no object.
#[verifier::external_body]
pub(crate) fn member_count(value: &serde_json::Value) -> (count: Option<usize>)
    ensures
        match json_members(*value) {
            Some(members) => members.dom().finite() && count is Some && count->0
                == members.len(),
            None => count is None,
        },
{
    match value.as_object() {
        Some(members) => Some(members.len()),
        None => None,
    }
}

/// `serde_json::Value::get` with a string key: the member of an object under
/// `key`; `None` where the key is absent or the value is no object.
#[verifier::external_body]
pub(crate) fn member<'a>(value: &'a serde_json::Value, key: &str) -> (found: Option<
    &'a serde_json::Value,
>)
    ensures
        match json_members(*value) {
            Some(members) => if members.contains_key(key@) {
                found == Some(&members[key@])
            } else {
                found is None
            },
            None => found is None,
        },
{
    value.get(key)
}

/// `serde_json::Value::as_str`: the text of a JSON string; `None` for a value
/// of another kind.
#[verifier::external_body]
pub(crate) fn text_of<'a>(value: &'a serde_json::Value) -> (text: Option<&'a str>)
    ensures
        match json_text(*value) {
            Some(chars) => text matches Some(t) && t@ == chars,
            None => text is None,
        },
{
    value.as_str()
}

/// `serde_json::to_string` at `str`: the JSON string literal for `text`,
/// with the escapes of `serde_json`'s table: `\"`, `\\`, `\b`, `\t`, `\n`,
/// `\f`, `\r`, and `\u00xx` for the other characters below U+0020.
/// Writing a string into memory has no failing path in `serde_json`.
#[verifier::external_body]
pub(crate) fn quote(text: &str) -> (literal: String)
    ensures
        literal@ == json_quoted(text@),
{
    serde_json::to_string(text).unwrap()
}

} // verus!
