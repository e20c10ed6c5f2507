//! The little that the runtime reads of JSON documents.
use crate::domain::JsonValue;
use vstd::prelude::*;

verus! {

/// The outermost shape of a JSON document.
#[derive(Debug, Clone, Copy, PartialEq, Eq, Structural)]
pub enum JsonShape {
    Null,
    Bool,
    Number,
    Text,
    Array,
    Object { empty: bool },
    /// The text is no JSON document.
    Invalid,
}

/// The shape that `serde_json` finds in a text.
pub uninterp spec fn shape_of(text: Seq<char>) -> JsonShape;

/// `serde_json::from_str` into a `serde_json::Value`, with the variant told and, of an object,
/// `serde_json::Map::is_empty`.  Claimed is that the result is a function of the text, and that the
/// texts `null` and `{}` are the null document and an empty object.
#[verifier::external_body]
fn json_shape(text: &str) -> (shape: JsonShape)
    ensures
        shape == shape_of(text@),
        text@ == "null"@ ==> shape == JsonShape::Null,
        text@ == "{}"@ ==> shape == (JsonShape::Object { empty: true }),
{
    match serde_json::from_str::<serde_json::Value>(text) {
        Ok(serde_json::Value::Null) => JsonShape::Null,
        Ok(serde_json::Value::Bool(_)) => JsonShape::Bool,
        Ok(serde_json::Value::Number(_)) => JsonShape::Number,
        Ok(serde_json::Value::String(_)) => JsonShape::Text,
        Ok(serde_json::Value::Array(_)) => JsonShape::Array,
        Ok(serde_json::Value::Object(map)) => JsonShape::Object { empty: map.is_empty() },
        Err(_) => JsonShape::Invalid,
    }
}

/// A handle of this shape says nothing.
pub open spec fn says_nothing(shape: JsonShape) -> bool {
    shape == JsonShape::Null || shape == (JsonShape::Object { empty: true })
}

/// The handle as a hint, given its shape: null and an empty object are none.
pub fn handle_hint(shape: JsonShape, value: &JsonValue) -> (hint: Option<JsonValue>)
    ensures
        hint == if says_nothing(shape) {
            None
        } else {
            Some(*value)
        },
{
    match shape {
        JsonShape::Null => None,
        JsonShape::Object { empty } => {
            if empty {
                None
            } else {
                Some(value.clone())
            }
        },
        _ => Some(value.clone()),
    }
}

/// The hint that a persisted handle is to an adapter.
pub fn persisted_handle_hint(value: &JsonValue) -> (hint: Option<JsonValue>)
    ensures
        hint == if says_nothing(shape_of(value@)) {
            None
        } else {
            Some(*value)
        },
        value@ == "null"@ || value@ == "{}"@ ==> hint is None,
{
    handle_hint(json_shape(value.text.as_str()), value)
}

/// Only the null document and an empty object say nothing.
pub proof fn law_only_empty_documents_say_nothing(shape: JsonShape)
    ensures
        match shape {
            JsonShape::Null => says_nothing(shape),
            JsonShape::Object { empty } => says_nothing(shape) == empty,
            JsonShape::Bool | JsonShape::Number | JsonShape::Text | JsonShape::Array
            | JsonShape::Invalid => !says_nothing(shape),
        },
{
}

} // verus!
