//! Reading and writing JSON text. The grammar itself is the work of
//! `serde_json`; this module states what the library relies on.

use vstd::prelude::*;
use crate::json::{Json, JsonValue};
use serde_json::Value;

verus! {

/// `serde_json::Value`, the document type of the parser and the printer.
#[verifier::external_type_specification]
#[verifier::external_body]
pub struct ExValue(serde_json::Value);

/// `serde_json::Error`, the error of the parser.
#[verifier::external_type_specification]
#[verifier::external_body]
pub struct ExError(serde_json::Error);

/// The document that `serde_json::from_str` reads from `text`, or `None`
/// where it rejects the text.
pub uninterp spec fn parsed(text: Seq<char>) -> Option<JsonValue>;

/// The text that `serde_json::to_string` writes for a document.
pub uninterp spec fn compact(value: JsonValue) -> Seq<char>;

/// The text that `serde_json::to_string_pretty` writes for a document.
pub uninterp spec fn pretty(value: JsonValue) -> Seq<char>;

/// Copies a `serde_json::Value` into a [`Json`], variant by variant. A number
/// becomes `Unsigned` where `as_u64` gives it, else `Signed` where `as_i64`
/// gives it, else `Decimal` with the number's own rendering. Nothing is
/// claimed of the result.
#[verifier::external_body]
fn from_value(value: &Value) -> (out: Json) {
    match value {
        Value::Null => Json::Null,
        Value::Bool(b) => Json::Bool(*b),
        Value::Number(n) => match (n.as_u64(), n.as_i64()) {
            (Some(u), _) => Json::Unsigned(u),
            (None, Some(i)) => Json::Signed(i),
            (None, None) => Json::Decimal(n.to_string()),
        },
        Value::String(s) => Json::Text(s.clone()),
        Value::Array(a) => Json::Array(a.iter().map(from_value).collect()),
        Value::Object(m) => Json::Object(m.iter().map(|(k, v)| (k.clone(), from_value(v))).collect()),
    }
}

/// Copies a [`Json`] into a `serde_json::Value`, variant by variant. A
/// `Decimal` is read back as a number and becomes null where it is none.
/// Nothing is claimed of the result.
#[verifier::external_body]
fn to_value(json: &Json) -> (out: Value) {
    match json {
        Json::Null => Value::Null,
        Json::Bool(b) => Value::Bool(*b),
        Json::Unsigned(n) => Value::from(*n),
        Json::Signed(n) => Value::from(*n),
        Json::Decimal(s) => serde_json::from_str(s).map_or(Value::Null, Value::Number),
        Json::Text(s) => Value::String(s.clone()),
        Json::Array(a) => Value::Array(a.iter().map(to_value).collect()),
        Json::Object(m) => Value::Object(m.iter().map(|(k, v)| (k.clone(), to_value(v))).collect()),
    }
}

/// Calls `serde_json::from_str` for a `Value`. The contract names the
/// outcome: the document read is `parsed(text)`, and an error comes exactly
/// where `parsed(text)` is `None`.
#[verifier::external_body]
fn read(text: &str) -> (out: Result<Json, serde_json::Error>)
    ensures
        match out {
            Ok(json) => parsed(text@) == Some(json@),
            Err(_) => parsed(text@) is None,
        },
{
    serde_json::from_str::<Value>(text).map(|v| from_value(&v))
}

/// Calls `serde_json::to_string`. The contract names the text written.
#[verifier::external_body]
fn write_compact(json: &Json) -> (out: String)
    ensures
        out@ == compact(json@),
{
    serde_json::to_string(&to_value(json)).unwrap_or_default()
}

/// Calls `serde_json::to_string_pretty`. The contract names the text written.
#[verifier::external_body]
fn write_pretty(json: &Json) -> (out: String)
    ensures
        out@ == pretty(json@),
{
    serde_json::to_string_pretty(&to_value(json)).unwrap_or_default()
}

/// The message of a `serde_json::Error`, as its `Display` writes it.
#[verifier::external_body]
fn describe(error: &serde_json::Error) -> (out: String) {
    error.to_string()
}

impl Json {
    /// Reads a document from JSON text. The error is the parser's message.
    pub fn parse(text: &str) -> (out: Result<Json, String>)
        ensures
            match out {
                Ok(json) => parsed(text@) == Some(json@),
                Err(_) => parsed(text@) is None,
            },
    {
        match read(text) {
            Ok(json) => Ok(json),
            Err(error) => Err(describe(&error)),
        }
    }

    /// The document as JSON text on one line.
    pub fn to_text(&self) -> (out: String)
        ensures
            out@ == compact(self@),
    {
        write_compact(self)
    }

    /// The document as indented JSON text.
    pub fn to_pretty(&self) -> (out: String)
        ensures
            out@ == pretty(self@),
    {
        write_pretty(self)
    }
}

} // verus!
