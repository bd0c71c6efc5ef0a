//! JSON text, as far as the bridge writes it: string literals, which
//! `serde_json` encodes, and the framing of arrays and objects around them.

use vstd::prelude::*;
use vstd::string::StringExecFns;
use crate::error::SerializationError;

verus! {

/// The error of `serde_json`. Nothing is known of what it holds; it is
/// only turned into its message.
#[verifier::external_type_specification]
#[verifier::external_body]
pub struct ExJsonError(serde_json::Error);

/// The JSON string literal that `serde_json` writes for the text `s`: the
/// text between double quotes, with the characters escaped that JSON does
/// not take as they are.
pub uninterp spec fn json_string(s: Seq<char>) -> Seq<char>;

/// `serde_json::to_string` on a string slice. Trusted: it succeeds, and the
/// text that it returns depends on the slice's characters alone and is what
/// `json_string` names. It succeeds because a string slice is written
/// without a choice of its own, and every error on that way would come from
/// the writer, which is a byte vector that takes whatever is written to it.
#[verifier::external_body]
fn encode_string(s: &str) -> (result: Result<String, serde_json::Error>)
    ensures
        result is Ok,
        result matches Ok(text) ==> text@ == json_string(s@),
{
    serde_json::to_string(s)
}

/// The message of a `serde_json::Error`, through its `Display`. Trusted, and
/// nothing is claimed of the message.
#[verifier::external_body]
fn error_message(error: &serde_json::Error) -> String {
    format!("{}", error)
}

/// The JSON text of `null`.
pub open spec fn json_null() -> Seq<char> {
    "null"@
}

/// The JSON text of an optional string: the literal, or `null`.
pub open spec fn json_optional_string(s: Option<Seq<char>>) -> Seq<char> {
    match s {
        Some(text) => json_string(text),
        None => json_null(),
    }
}

/// The texts of `parts` in order, with `separator` between each two.
pub open spec fn joined(parts: Seq<Seq<char>>, separator: Seq<char>) -> Seq<char>
    decreases parts.len(),
{
    if parts.len() == 0 {
        Seq::empty()
    } else if parts.len() == 1 {
        parts[0]
    } else {
        joined(parts.drop_last(), separator) + separator + parts.last()
    }
}

/// The JSON array whose elements have the texts `elements`.
pub open spec fn json_array(elements: Seq<Seq<char>>) -> Seq<char> {
    "["@ + joined(elements, ","@) + "]"@
}

/// The JSON object whose members have the texts `members`.
pub open spec fn json_object(members: Seq<Seq<char>>) -> Seq<char> {
    "{"@ + joined(members, ","@) + "}"@
}

/// The member of a JSON object that gives the value with the text `value`
/// to the key `key`.
pub open spec fn json_member(key: Seq<char>, value: Seq<char>) -> Seq<char> {
    json_string(key) + ":"@ + value
}

/// Encodes `s` as a JSON string literal. The encoder's error is handed on,
/// though none comes for a string.
pub fn string_literal(s: &str) -> (result: Result<String, SerializationError>)
    ensures
        result matches Ok(text) && text@ == json_string(s@),
{
    match encode_string(s) {
        Ok(text) => Ok(text),
        Err(error) => Err(SerializationError { reason: error_message(&error) }),
    }
}

/// Encodes an optional string: its literal, or `null` where there is none.
pub fn optional_string_literal(s: &Option<String>) -> (result: Result<
    String,
    SerializationError,
>)
    ensures
        result matches Ok(text) && text@ == json_optional_string(
            match s {
                Some(inner) => Some(inner@),
                None => None,
            },
        ),
{
    match s {
        Some(inner) => string_literal(inner.as_str()),
        None => Ok(String::from_str("null")),
    }
}

/// The views of the strings of `strings`, in order.
pub open spec fn texts(strings: Seq<String>) -> Seq<Seq<char>> {
    strings.map_values(|s: String| s@)
}

/// Writes the member of a JSON object that gives the value with the text
/// `value` to the key `key`.
pub fn member(key: &str, value: &str) -> (result: Result<String, SerializationError>)
    ensures
        result matches Ok(text) && text@ == json_member(key@, value@),
{
    match string_literal(key) {
        Ok(mut text) => {
            text.append(":");
            text.append(value);
            Ok(text)
        },
        Err(error) => Err(error),
    }
}

/// Writes the member that gives the string `value` to the key `key`.
pub fn string_member(key: &str, value: &str) -> (result: Result<String, SerializationError>)
    ensures
        result matches Ok(text) && text@ == json_member(key@, json_string(value@)),
{
    match string_literal(value) {
        Ok(literal) => member(key, literal.as_str()),
        Err(error) => Err(error),
    }
}

/// Writes the member that gives the optional string `value` to the key
/// `key`.
pub fn optional_string_member(key: &str, value: &Option<String>) -> (result: Result<
    String,
    SerializationError,
>)
    ensures
        result matches Ok(text) && text@ == json_member(
            key@,
            json_optional_string(
                match value {
                    Some(inner) => Some(inner@),
                    None => None,
                },
            ),
        ),
{
    match optional_string_literal(value) {
        Ok(literal) => member(key, literal.as_str()),
        Err(error) => Err(error),
    }
}

/// Joins `parts` with `separator` between each two.
pub fn join(parts: &Vec<String>, separator: &str) -> (text: String)
    ensures
        text@ == joined(texts(parts@), separator@),
{
    let mut text = String::new();
    let mut i: usize = 0;
    while i < parts.len()
        invariant
            i <= parts.len(),
            text@ == joined(texts(parts@).take(i as int), separator@),
        decreases parts.len() - i,
    {
        proof {
            let all = texts(parts@);
            assert(all.take(i + 1).drop_last() == all.take(i as int));
            assert(all.take(i + 1).last() == parts@[i as int]@);
            if i == 0 {
                assert(text@ + parts@[0]@ == parts@[0]@);
            }
        }
        if i > 0 {
            text.append(separator);
        }
        text.append(parts[i].as_str());
        i += 1;
    }
    proof {
        assert(texts(parts@).take(parts.len() as int) == texts(parts@));
    }
    text
}

/// Frames the member texts `members` as a JSON object.
pub fn object(members: &Vec<String>) -> (text: String)
    ensures
        text@ == json_object(texts(members@)),
{
    let mut text = String::from_str("{");
    let inner = join(members, ",");
    text.append(inner.as_str());
    text.append("}");
    text
}

/// Frames the element texts `elements` as a JSON array.
pub fn array(elements: &Vec<String>) -> (text: String)
    ensures
        text@ == json_array(texts(elements@)),
{
    let mut text = String::from_str("[");
    let inner = join(elements, ",");
    text.append(inner.as_str());
    text.append("]");
    text
}

} // verus!
