//! A one-level model of parsed JSON.
//!
//! The decoder needs to see only the outermost structure of a frame: the
//! kind of the top value and, for arrays and objects, the children as raw
//! JSON text.  A child that the protocol must look inside is re-parsed on
//! its own.  Payloads the protocol treats as opaque stay as their raw text
//! and are forwarded verbatim.

use serde_json::Value;
use vstd::prelude::*;

verus! {

/// One level of a parsed JSON value.  Children of arrays and objects are
/// carried as their own serialized JSON text; numbers are carried as their
/// decimal text.
#[derive(Debug, Clone)]
pub enum JsonNode {
    Null,
    Bool(bool),
    Num(String),
    Str(String),
    Arr(Vec<String>),
    Obj(Vec<(String, String)>),
}

/// What parsing a character sequence as JSON yields: `None` for text that
/// is not valid JSON, otherwise the one-level shape of the value, with
/// every child re-serialized.  The result depends on the text alone.
pub uninterp spec fn parsed_json(s: Seq<char>) -> Option<JsonNode>;

/// Relies on `serde_json::from_str::<serde_json::Value>` to parse the text
/// and on `serde_json::Value::to_string` to re-serialize each child of an
/// array or object; both depend only on their argument, so the whole result
/// is a function of `text` alone, named `parsed_json`.  Object keys come
/// from serde_json's map, which holds one value per key.
#[verifier::external_body]
pub fn parse_json(text: &str) -> (r: Option<JsonNode>)
    ensures
        r == parsed_json(text@),
{
    match serde_json::from_str::<Value>(text) {
        Err(_) => None,
        Ok(Value::Null) => Some(JsonNode::Null),
        Ok(Value::Bool(b)) => Some(JsonNode::Bool(b)),
        Ok(Value::Number(n)) => Some(JsonNode::Num(n.to_string())),
        Ok(Value::String(s)) => Some(JsonNode::Str(s)),
        Ok(Value::Array(a)) => Some(JsonNode::Arr(a.iter().map(|v| v.to_string()).collect())),
        Ok(Value::Object(m)) => Some(JsonNode::Obj(
            m.iter().map(|(k, v)| (k.clone(), v.to_string())).collect(),
        )),
    }
}

} // verus!
