//! Reading JSON: what stands under a name in an object's text.
//!
//! The grammar is serde_json's business. Each reader here names what
//! serde_json finds, so that what is decided from it can be stated exactly.
use crate::text::{opt_view, views};
use vstd::prelude::*;

verus! {

/// The string under `key` in the object that `json` spells out, if `json` is
/// an object and a string stands there.
pub uninterp spec fn json_text(json: Seq<char>, key: Seq<char>) -> Option<Seq<char>>;

/// serde_json's `Value::as_str`, of what `from_str` and indexing by `key`
/// find in `json`. A text that is not JSON, and a key that is not there,
/// give nothing.
#[verifier::external_body]
pub(crate) fn text_under(json: &str, key: &str) -> (r: Option<String>)
    ensures
        opt_view(r) == json_text(json@, key@),
{
    let value: serde_json::Value = serde_json::from_str(json).ok()?;
    value[key].as_str().map(String::from)
}

/// The integer under `key`, if one stands there that an `i64` can hold.
pub uninterp spec fn json_int(json: Seq<char>, key: Seq<char>) -> Option<i64>;

/// serde_json's `Value::as_i64`, of what `from_str` and indexing by `key`
/// find in `json`.
#[verifier::external_body]
pub(crate) fn int_under(json: &str, key: &str) -> (r: Option<i64>)
    ensures
        r == json_int(json@, key@),
{
    let value: serde_json::Value = serde_json::from_str(json).ok()?;
    value[key].as_i64()
}

/// The non-negative integer under `key`, if one stands there that a `u64` can
/// hold.
pub uninterp spec fn json_uint(json: Seq<char>, key: Seq<char>) -> Option<u64>;

/// serde_json's `Value::as_u64`, of what `from_str` and indexing by `key`
/// find in `json`.
#[verifier::external_body]
pub(crate) fn uint_under(json: &str, key: &str) -> (r: Option<u64>)
    ensures
        r == json_uint(json@, key@),
{
    let value: serde_json::Value = serde_json::from_str(json).ok()?;
    value[key].as_u64()
}

/// The boolean under `key`, if one stands there.
pub uninterp spec fn json_flag(json: Seq<char>, key: Seq<char>) -> Option<bool>;

/// serde_json's `Value::as_bool`, of what `from_str` and indexing by `key`
/// find in `json`.
#[verifier::external_body]
pub(crate) fn flag_under(json: &str, key: &str) -> (r: Option<bool>)
    ensures
        r == json_flag(json@, key@),
{
    let value: serde_json::Value = serde_json::from_str(json).ok()?;
    value[key].as_bool()
}

/// The views of a list of optional texts.
pub open spec fn item_views(list: Seq<Option<String>>) -> Seq<Option<Seq<char>>> {
    list.map_values(|o: Option<String>| opt_view(o))
}

/// The array under `key`, if one stands there: each item that is a string, by
/// its text, and each that is not, by nothing.
pub uninterp spec fn json_texts(json: Seq<char>, key: Seq<char>) -> Option<Seq<Option<Seq<char>>>>;

/// serde_json's `Value::as_array` and, of each item, `Value::as_str`, of what
/// `from_str` and indexing by `key` find in `json`.
#[verifier::external_body]
pub(crate) fn texts_under(json: &str, key: &str) -> (r: Option<Vec<Option<String>>>)
    ensures
        r is Some <==> json_texts(json@, key@) is Some,
        r matches Some(list) ==> item_views(list@) == json_texts(json@, key@)->0,
{
    let value: serde_json::Value = serde_json::from_str(json).ok()?;
    Some(value[key].as_array()?.iter().map(|item| item.as_str().map(String::from)).collect())
}

/// Something stands under `key` in the object that `json` spells out.
pub uninterp spec fn json_has(json: Seq<char>, key: Seq<char>) -> bool;

/// serde_json's `Value::get`, of what `from_str` finds in `json`: is there
/// anything under `key`, be it null?
#[verifier::external_body]
pub(crate) fn stands_under(json: &str, key: &str) -> (r: bool)
    ensures
        r == json_has(json@, key@),
{
    let value: serde_json::Value = serde_json::from_str(json).unwrap_or_default();
    value.get(key).is_some()
}

/// The string at `index` in the array that `json` spells out.
pub uninterp spec fn json_text_at(json: Seq<char>, index: int) -> Option<Seq<char>>;

/// serde_json's `Value::get` by index and `Value::as_str`, of what `from_str`
/// finds in `json`.
#[verifier::external_body]
pub(crate) fn text_at(json: &str, index: usize) -> (r: Option<String>)
    ensures
        opt_view(r) == json_text_at(json@, index as int),
{
    let value: serde_json::Value = serde_json::from_str(json).ok()?;
    value.get(index)?.as_str().map(String::from)
}

/// The boolean at `index` in the array that `json` spells out.
pub uninterp spec fn json_flag_at(json: Seq<char>, index: int) -> Option<bool>;

/// serde_json's `Value::get` by index and `Value::as_bool`, of what `from_str`
/// finds in `json`.
#[verifier::external_body]
pub(crate) fn flag_at(json: &str, index: usize) -> (r: Option<bool>)
    ensures
        r == json_flag_at(json@, index as int),
{
    let value: serde_json::Value = serde_json::from_str(json).ok()?;
    value.get(index)?.as_bool()
}

/// The text of the value at `index` in the array that `json` spells out.
pub uninterp spec fn json_item_at(json: Seq<char>, index: int) -> Option<Seq<char>>;

/// serde_json's `Value::get` by index and `Value::to_string`, of what
/// `from_str` finds in `json`.
#[verifier::external_body]
pub(crate) fn item_at(json: &str, index: usize) -> (r: Option<String>)
    ensures
        opt_view(r) == json_item_at(json@, index as int),
{
    let value: serde_json::Value = serde_json::from_str(json).ok()?;
    value.get(index).map(|item| item.to_string())
}

/// The views of a list of named texts.
pub open spec fn pair_views(list: Seq<(String, String)>) -> Seq<(Seq<char>, Seq<char>)> {
    list.map_values(|p: (String, String)| (p.0@, p.1@))
}

/// A text as a JSON string.
pub uninterp spec fn json_quoted(text: Seq<char>) -> Seq<char>;

/// serde_json's `to_string` of a string, which never fails for one.
#[verifier::external_body]
pub(crate) fn quoted(text: &str) -> (r: String)
    ensures
        r@ == json_quoted(text@),
{
    serde_json::to_string(text).unwrap()
}

/// The JSON array of these values, each given by its JSON.
pub uninterp spec fn json_list(items: Seq<Seq<char>>) -> Seq<char>;

/// serde_json's `Value::to_string`, of the array of these values. What is not
/// JSON counts as null.
#[verifier::external_body]
pub(crate) fn list_text(items: &Vec<String>) -> (r: String)
    ensures
        r@ == json_list(views(items@)),
{
    let values = items.iter().map(|item| serde_json::from_str(item).unwrap_or_default());
    serde_json::Value::Array(values.collect()).to_string()
}

/// The JSON object of these values under these names, each value given by its
/// JSON.
pub uninterp spec fn json_object(fields: Seq<(Seq<char>, Seq<char>)>) -> Seq<char>;

/// serde_json's `Value::to_string`, of the object of these values under these
/// names. What is not JSON counts as null.
#[verifier::external_body]
pub(crate) fn object_text(fields: &Vec<(String, String)>) -> (r: String)
    ensures
        r@ == json_object(pair_views(fields@)),
{
    let values = fields
        .iter()
        .map(|(name, json)| (name.clone(), serde_json::from_str(json).unwrap_or_default()));
    serde_json::Value::Object(values.collect()).to_string()
}

/// What is wrong with a text that is not JSON.
pub uninterp spec fn json_error(text: Seq<char>) -> Option<Seq<char>>;

/// The error of serde_json's `from_str`, in words, where there is one.
#[verifier::external_body]
pub(crate) fn error_in(text: &str) -> (r: Option<String>)
    ensures
        opt_view(r) == json_error(text@),
{
    serde_json::from_str::<serde_json::Value>(text).err().map(|error| error.to_string())
}

} // verus!
