//! Reads of JSON text through `serde_json`.
use vstd::prelude::*;
use crate::providers::types::opt_view;
use crate::text::{append_chars, append_str, decimal, decimal_chars, string_from_chars};

verus! {

/// The string held by member `key` of the JSON object written in `json`
/// (`None` when the text is not JSON, not an object, lacks the member, or the
/// member is not a string).
pub uninterp spec fn json_string_member(json: Seq<char>, key: Seq<char>) -> Option<Seq<char>>;

/// Compact JSON text of member `key` of the JSON object written in `json`
/// (`None` when the text is not JSON, not an object, or lacks the member).
pub uninterp spec fn json_member_text(json: Seq<char>, key: Seq<char>) -> Option<Seq<char>>;

/// `json` re-printed by `serde_json::to_string_pretty` (empty when it does not
/// parse).
pub uninterp spec fn json_pretty(json: Seq<char>) -> Seq<char>;

/// JSON text of an array of strings, as `serde_json::to_string` writes it.
pub uninterp spec fn json_string_array(items: Seq<Seq<char>>) -> Seq<char>;

/// Parses `json` with `serde_json::from_str` into a `Value`, takes member
/// `key` with `Value::get` and reads it with `Value::as_str`. The contract only
/// ties the result to the name `json_string_member` of the two arguments.
#[verifier::external_body]
pub(crate) fn str_member(json: &str, key: &str) -> (r: Option<String>)
    ensures
        opt_view(r) == json_string_member(json@, key@),
{
    match serde_json::from_str::<serde_json::Value>(json) {
        Ok(v) => v.get(key).and_then(|m| m.as_str()).map(|s| s.to_string()),
        Err(_) => None,
    }
}

/// Parses `json` with `serde_json::from_str` and writes member `key` back as
/// compact JSON text with `Value::to_string`. The contract only ties the result
/// to the name `json_member_text` of the two arguments.
#[verifier::external_body]
pub(crate) fn member_text(json: &str, key: &str) -> (r: Option<String>)
    ensures
        opt_view(r) == json_member_text(json@, key@),
{
    match serde_json::from_str::<serde_json::Value>(json) {
        Ok(v) => v.get(key).map(|m| m.to_string()),
        Err(_) => None,
    }
}

/// Parses `json` with `serde_json::from_str` and prints it with
/// `serde_json::to_string_pretty`; text that does not parse gives the empty
/// string. The contract only ties the result to the name `json_pretty`.
#[verifier::external_body]
pub(crate) fn pretty(json: &str) -> (r: String)
    ensures
        r@ == json_pretty(json@),
{
    match serde_json::from_str::<serde_json::Value>(json) {
        Ok(v) => serde_json::to_string_pretty(&v).unwrap_or_default(),
        Err(_) => String::new(),
    }
}

/// Serialises a list of strings with `serde_json::to_string`. The contract
/// only ties the result to the name `json_string_array` of the items.
#[verifier::external_body]
pub(crate) fn string_array(items: &Vec<String>) -> (r: String)
    ensures
        r@ == json_string_array(items@.map_values(|s: String| s@)),
{
    serde_json::to_string(items).unwrap_or_default()
}

/// `json` re-written as compact JSON text (`None` when it does not parse).
pub uninterp spec fn json_reformat(json: Seq<char>) -> Option<Seq<char>>;

/// Parses `json` with `serde_json::from_str` and writes the value back with
/// `Value::to_string`. The contract only ties the result to the name
/// `json_reformat` of the text.
#[verifier::external_body]
pub(crate) fn reformat(json: &str) -> (r: Option<String>)
    ensures
        opt_view(r) == json_reformat(json@),
{
    serde_json::from_str::<serde_json::Value>(json).ok().map(|v| v.to_string())
}

/// What the logic reads of one element of a JSON array: the string held by
/// its member `id`, and the element itself when it is a string.
#[derive(Debug, Clone)]
pub struct JsonItem {
    pub id: Option<String>,
    pub text: Option<String>,
}

/// The plain values of an array element.
pub open spec fn item_view(i: JsonItem) -> (Option<Seq<char>>, Option<Seq<char>>) {
    (opt_view(i.id), opt_view(i.text))
}

/// The plain values of array elements.
pub open spec fn items_view(v: Seq<JsonItem>) -> Seq<(Option<Seq<char>>, Option<Seq<char>>)> {
    v.map_values(|i: JsonItem| item_view(i))
}

/// The plain values of an optional array.
pub open spec fn opt_items_view(o: Option<Vec<JsonItem>>) -> Option<Seq<(Option<Seq<char>>, Option<Seq<char>>)>> {
    match o {
        Some(v) => Some(items_view(v@)),
        None => None,
    }
}

/// For the JSON text `json`, the value that the JSON pointer `pointer` picks
/// (`""` is the whole value), when it is an array: for each element, its `id`
/// member as a string and the element as a string. `None` when the text does
/// not parse, the pointer picks nothing, or the value is no array.
pub uninterp spec fn json_array_items(json: Seq<char>, pointer: Seq<char>) -> Option<Seq<(Option<Seq<char>>, Option<Seq<char>>)>>;

/// Parses `json` with `serde_json::from_str`, picks a value with
/// `Value::pointer` and reads it with `Value::as_array`; each element becomes
/// its `id` member read with `Value::as_str` and the element read with
/// `Value::as_str`. The contract only ties the result to the name
/// `json_array_items` of the two arguments.
#[verifier::external_body]
pub(crate) fn array_items(json: &str, pointer: &str) -> (r: Option<Vec<JsonItem>>)
    ensures
        opt_items_view(r) == json_array_items(json@, pointer@),
{
    let v = serde_json::from_str::<serde_json::Value>(json).ok()?;
    let arr = v.pointer(pointer)?.as_array()?;
    Some(arr.iter().map(|m| JsonItem {
        id: m.get("id").and_then(|x| x.as_str()).map(|x| x.to_string()),
        text: m.as_str().map(|x| x.to_string()),
    }).collect())
}

/// Whether `json` is JSON text (`serde_json::from_str::<Value>` succeeds).
pub uninterp spec fn json_parses(json: Seq<char>) -> bool;

/// The string that the JSON pointer `pointer` picks in the value written in
/// `json` (`None` when the text does not parse, the pointer picks nothing,
/// or the value there is no string).
pub uninterp spec fn json_str_at(json: Seq<char>, pointer: Seq<char>) -> Option<Seq<char>>;

/// The unsigned integer that `pointer` picks in the value written in `json`
/// (`None` when there is none, or it is not an integer that fits `u64`).
pub uninterp spec fn json_u64_at(json: Seq<char>, pointer: Seq<char>) -> Option<u64>;

/// The length of the array that `pointer` picks in the value written in
/// `json` (`None` when there is none or it is no array).
pub uninterp spec fn json_array_len_at(json: Seq<char>, pointer: Seq<char>) -> Option<nat>;

/// Whether `pointer` picks an object in the value written in `json`.
pub uninterp spec fn json_object_at(json: Seq<char>, pointer: Seq<char>) -> bool;

/// The message of the error `serde_json::from_str::<Vec<Value>>` gives for
/// `json` (`None` when it is a JSON array).
pub uninterp spec fn json_array_error(json: Seq<char>) -> Option<Seq<char>>;

/// `serde_json::from_str::<Value>(json).is_ok()`. The contract only ties the
/// result to the name `json_parses`.
#[verifier::external_body]
pub(crate) fn parses(json: &str) -> (b: bool)
    ensures
        b == json_parses(json@),
{
    serde_json::from_str::<serde_json::Value>(json).is_ok()
}

/// Parses `json` with `serde_json::from_str`, picks a value with
/// `Value::pointer` and reads it with `Value::as_str`. The contract only ties
/// the result to the name `json_str_at`.
#[verifier::external_body]
pub(crate) fn str_at(json: &str, pointer: &str) -> (r: Option<String>)
    ensures
        opt_view(r) == json_str_at(json@, pointer@),
{
    let v = serde_json::from_str::<serde_json::Value>(json).ok()?;
    v.pointer(pointer)?.as_str().map(|s| s.to_string())
}

/// Parses `json`, picks a value with `Value::pointer` and reads it with
/// `Value::as_u64`. The contract only ties the result to `json_u64_at`.
#[verifier::external_body]
pub(crate) fn u64_at(json: &str, pointer: &str) -> (r: Option<u64>)
    ensures
        r == json_u64_at(json@, pointer@),
{
    let v = serde_json::from_str::<serde_json::Value>(json).ok()?;
    v.pointer(pointer)?.as_u64()
}

/// Parses `json`, picks a value with `Value::pointer` and takes the length
/// of `Value::as_array`. The contract only ties the result to
/// `json_array_len_at`.
#[verifier::external_body]
pub(crate) fn array_len_at(json: &str, pointer: &str) -> (r: Option<usize>)
    ensures
        match r {
            Some(n) => json_array_len_at(json@, pointer@) == Some(n as nat),
            None => json_array_len_at(json@, pointer@) is None,
        },
{
    let v = serde_json::from_str::<serde_json::Value>(json).ok()?;
    v.pointer(pointer)?.as_array().map(|a| a.len())
}

/// Parses `json`, picks a value with `Value::pointer` and tests it with
/// `Value::is_object`. The contract only ties the result to
/// `json_object_at`.
#[verifier::external_body]
pub(crate) fn object_at(json: &str, pointer: &str) -> (b: bool)
    ensures
        b == json_object_at(json@, pointer@),
{
    match serde_json::from_str::<serde_json::Value>(json) {
        Ok(v) => v.pointer(pointer).map_or(false, |x| x.is_object()),
        Err(_) => false,
    }
}

/// `serde_json::from_str::<Vec<Value>>(json)`, its error written with
/// `Display`. The contract only ties the result to `json_array_error`.
#[verifier::external_body]
pub(crate) fn array_error(json: &str) -> (r: Option<String>)
    ensures
        opt_view(r) == json_array_error(json@),
{
    serde_json::from_str::<Vec<serde_json::Value>>(json).err().map(|e| e.to_string())
}

/// The JSON pointer to element `i` of the array at `base`, followed by
/// `rest`.
pub open spec fn index_pointer(base: Seq<char>, i: nat, rest: Seq<char>) -> Seq<char> {
    base + "/"@ + decimal(i) + rest
}

/// Builds `index_pointer(base, i, rest)`.
pub fn pointer_to(base: &str, i: usize, rest: &str) -> (r: String)
    ensures
        r@ == index_pointer(base@, i as nat, rest@),
{
    let mut out: Vec<char> = Vec::new();
    append_str(&mut out, base);
    append_str(&mut out, "/");
    let d = decimal_chars(i);
    append_chars(&mut out, &d);
    append_str(&mut out, rest);
    string_from_chars(&out)
}

} // verus!
