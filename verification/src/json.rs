//! What the bot reads out of JSON replies, through serde_json: the items of
//! an array, and a string field of an object.

use vstd::prelude::*;

verus! {

/// What serde_json makes of `text` read as an array: `None` when it is not
/// JSON, `Some(None)` when it is JSON but not an array, and otherwise the
/// array's items, each written back as JSON text.
pub uninterp spec fn json_array_items_of(text: Seq<char>) -> Option<Option<Seq<Seq<char>>>>;

/// What serde_json makes of `text` read as an object with a string field
/// `key`: `None` when it is not JSON, `Some(None)` when it has no such
/// field holding a string, and otherwise that string.
pub uninterp spec fn json_string_field_of(text: Seq<char>, key: Seq<char>) -> Option<Option<Seq<char>>>;

/// `serde_json::from_str::<Value>`, then, for an array, each item written
/// back with `Value::to_string`. The reading of JSON takes pages to state,
/// so the result is only named: it depends on the text alone.
#[verifier::external_body]
pub(crate) fn json_array_items(text: &str) -> (r: Option<Option<Vec<String>>>)
    ensures
        json_array_items_of(text@) == match r {
            None => None,
            Some(None) => Some(None),
            Some(Some(v)) => Some(Some(v@.map_values(|s: String| s@))),
        },
{
    match serde_json::from_str::<serde_json::Value>(text) {
        Err(_) => None,
        Ok(serde_json::Value::Array(items)) => Some(Some(items.iter().map(|v| v.to_string()).collect())),
        Ok(_) => Some(None),
    }
}

/// `serde_json::from_str::<Value>`, then `get(key)` and `as_str`. The result
/// is only named: it depends on the text and the key alone.
#[verifier::external_body]
pub(crate) fn json_string_field(text: &str, key: &str) -> (r: Option<Option<String>>)
    ensures
        json_string_field_of(text@, key@) == match r {
            None => None,
            Some(None) => Some(None),
            Some(Some(s)) => Some(Some(s@)),
        },
{
    match serde_json::from_str::<serde_json::Value>(text) {
        Err(_) => None,
        Ok(v) => Some(v.get(key).and_then(|t| t.as_str()).map(|t| t.to_string())),
    }
}

} // verus!
