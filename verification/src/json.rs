//! Reading values out of JSON documents, through `serde_json`.
//!
//! A document is handed over as text; what `serde_json` finds in it is named
//! by the spec functions below, whose arguments are the document's characters
//! and the lookup path.
use vstd::prelude::*;

verus! {

/// The view of an optional string.
pub open spec fn opt_view(o: Option<String>) -> Option<Seq<char>> {
    match o {
        Some(s) => Some(s@),
        None => None,
    }
}

/// The string that `serde_json` finds at JSON pointer `pointer` (RFC 6901, as
/// `Value::pointer` reads it) in the document `text`; `None` when `text` is not
/// one JSON value, when nothing is at `pointer`, or when what is there is not a
/// string.
pub uninterp spec fn json_str_at(text: Seq<char>, pointer: Seq<char>) -> Option<Seq<char>>;

/// The elements of the array that `serde_json` finds at JSON pointer `pointer`
/// in the document `text`, each as its string when it is a string; `None` when
/// `text` is not one JSON value or nothing or no array is at `pointer`.
pub uninterp spec fn json_str_list_at(text: Seq<char>, pointer: Seq<char>) -> Option<
    Seq<Option<Seq<char>>>,
>;

/// For each element of the array that `serde_json` finds at JSON pointer
/// `pointer` in the document `text`, the string at pointer `field` inside that
/// element; `None` when `text` is not one JSON value or nothing or no array is
/// at `pointer`.
pub uninterp spec fn json_field_list_at(text: Seq<char>, pointer: Seq<char>, field: Seq<char>) -> Option<
    Seq<Option<Seq<char>>>,
>;

/// The string that `serde_json` finds at `value["choices"][0]["message"]["content"]`
/// (indexing as `Value`'s `Index` impls do) in the document `text`.
pub uninterp spec fn json_choice_content(text: Seq<char>) -> Option<Seq<char>>;

/// The compact text that `serde_json` prints for the document `text` (the
/// `Display` of the parsed `Value`); `None` when `text` is not one JSON value.
pub uninterp spec fn json_display(text: Seq<char>) -> Option<Seq<char>>;

/// Calls `serde_json::from_str::<Value>`, then `Value::pointer` and
/// `Value::as_str`. The contract claims only that the result is the named
/// lookup `json_str_at` of the arguments.
#[verifier::external_body]
pub(crate) fn json_pointer_str(text: &str, pointer: &str) -> (r: Option<String>)
    ensures
        opt_view(r) == json_str_at(text@, pointer@),
{
    let v: serde_json::Value = serde_json::from_str(text).ok()?;
    v.pointer(pointer)?.as_str().map(String::from)
}

/// Calls `serde_json::from_str::<Value>`, then `Value::pointer`,
/// `Value::as_array` and `Value::as_str` on each element. The contract claims
/// only that the result is the named lookup `json_str_list_at` of the arguments.
#[verifier::external_body]
pub(crate) fn json_pointer_str_list(text: &str, pointer: &str) -> (r: Option<Vec<Option<String>>>)
    ensures
        match r {
            Some(v) => json_str_list_at(text@, pointer@) == Some(
                v@.map_values(|o: Option<String>| opt_view(o)),
            ),
            None => json_str_list_at(text@, pointer@) is None,
        },
{
    let v: serde_json::Value = serde_json::from_str(text).ok()?;
    let items = v.pointer(pointer)?.as_array()?;
    Some(items.iter().map(|e| e.as_str().map(String::from)).collect())
}

/// Calls `serde_json::from_str::<Value>`, then `Value::pointer` and
/// `Value::as_array`, and on each element `Value::pointer` with `field` and
/// `Value::as_str`. The contract claims only that the result is the named
/// lookup `json_field_list_at` of the arguments.
#[verifier::external_body]
pub(crate) fn json_pointer_field_list(text: &str, pointer: &str, field: &str) -> (r: Option<Vec<Option<String>>>)
    ensures
        match r {
            Some(v) => json_field_list_at(text@, pointer@, field@) == Some(
                v@.map_values(|o: Option<String>| opt_view(o)),
            ),
            None => json_field_list_at(text@, pointer@, field@) is None,
        },
{
    let v: serde_json::Value = serde_json::from_str(text).ok()?;
    let items = v.pointer(pointer)?.as_array()?;
    Some(items.iter().map(|e| e.pointer(field).and_then(|x| x.as_str()).map(String::from)).collect())
}

/// Calls `serde_json::from_str::<Value>`, then indexes the value with
/// `["choices"][0]["message"]["content"]` and calls `Value::as_str`. The
/// contract claims only that the result is the named lookup `json_choice_content`.
#[verifier::external_body]
pub(crate) fn json_first_choice_content(text: &str) -> (r: Option<String>)
    ensures
        opt_view(r) == json_choice_content(text@),
{
    let v: serde_json::Value = serde_json::from_str(text).ok()?;
    v["choices"][0]["message"]["content"].as_str().map(String::from)
}

/// Calls `serde_json::from_str::<Value>` and prints the value with its
/// `Display` impl. The contract claims only that the result is the named
/// text `json_display`.
#[verifier::external_body]
pub(crate) fn json_to_display(text: &str) -> (r: Option<String>)
    ensures
        opt_view(r) == json_display(text@),
{
    let v: serde_json::Value = serde_json::from_str(text).ok()?;
    Some(v.to_string())
}

} // verus!
