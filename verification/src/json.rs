//! A JSON document as plain values, the form in which decoded API replies
//! and automation results reach the library's logic.
use vstd::prelude::*;

verus! {

/// One JSON value.  A number is held as the text that serde_json prints for
/// it; an object keeps its members in the order the decoded map yields them.
#[derive(Debug)]
pub enum JsonValue {
    Null,
    Bool(bool),
    Number(String),
    Str(String),
    Array(Vec<JsonValue>),
    Object(Vec<(String, JsonValue)>),
}

impl JsonValue {
    /// The members of an object value (`Value::as_object`).
    pub fn as_object(&self) -> (r: Option<&Vec<(String, JsonValue)>>)
        ensures
            match *self {
                JsonValue::Object(m) => r == Some(&m),
                _ => r is None,
            },
    {
        match self {
            JsonValue::Object(m) => Some(m),
            _ => None,
        }
    }
}

} // verus!
