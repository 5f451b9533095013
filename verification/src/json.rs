//! JSON text, as `serde_json` reads and writes it.
//!
//! The functions of this module are the only place where JSON text is taken apart
//! or quoted. Each hands plain values over; none of them is verified, and what each
//! claims of `serde_json` is said above it.

use vstd::prelude::*;
use std::collections::BTreeMap;
use serde_json::value::RawValue;

verus! {

/// The members of `text` read as one JSON object: each key with the text of its
/// value, in the order of the keys, a key that occurs twice keeping its last value.
/// `None` where `text` is no JSON object.
pub uninterp spec fn json_members(text: Seq<char>) -> Option<Seq<(Seq<char>, Seq<char>)>>;

/// The string that `text` denotes as one JSON string, `None` where it is none.
pub uninterp spec fn json_string(text: Seq<char>) -> Option<Seq<char>>;

/// The strings that `text` denotes as one JSON array of strings, `None` where it is none.
pub uninterp spec fn json_strings(text: Seq<char>) -> Option<Seq<Seq<char>>>;

/// The integer that `text` denotes as one JSON number that fits 64 bits signed,
/// `None` where it is none.
pub uninterp spec fn json_integer(text: Seq<char>) -> Option<i64>;

/// The JSON value that `text` holds, without the white space around it; `None`
/// where `text` is no single JSON value.
pub uninterp spec fn json_value(text: Seq<char>) -> Option<Seq<char>>;

/// The JSON string literal that denotes `s`: quoted, with escapes where JSON needs them.
pub uninterp spec fn json_quoted(s: Seq<char>) -> Seq<char>;

/// Reads `text` with `serde_json::from_str` as a map from strings to raw values
/// (`BTreeMap<String, Box<RawValue>>`) and hands out its entries in the map's order.
/// The result is `json_members` of the text.
#[verifier::external_body]
pub(crate) fn read_members(text: &str) -> (members: Option<Vec<(String, String)>>)
    ensures
        members.deep_view() == json_members(text@),
{
    let map: BTreeMap<String, Box<RawValue>> = serde_json::from_str(text).ok()?;
    Some(map.into_iter().map(|(key, value)| (key, String::from(value.get()))).collect())
}

/// Reads `text` with `serde_json::from_str` as a `String`. The result is
/// `json_string` of the text.
#[verifier::external_body]
pub(crate) fn read_string(text: &str) -> (s: Option<String>)
    ensures
        s.deep_view() == json_string(text@),
{
    serde_json::from_str::<String>(text).ok()
}

/// Reads `text` with `serde_json::from_str` as a `Vec<String>`. The result is
/// `json_strings` of the text.
#[verifier::external_body]
pub(crate) fn read_strings(text: &str) -> (list: Option<Vec<String>>)
    ensures
        list.deep_view() == json_strings(text@),
{
    serde_json::from_str::<Vec<String>>(text).ok()
}

/// Reads `text` with `serde_json::from_str` as an `i64`. The result is
/// `json_integer` of the text.
#[verifier::external_body]
pub(crate) fn read_integer(text: &str) -> (v: Option<i64>)
    ensures
        v == json_integer(text@),
{
    serde_json::from_str::<i64>(text).ok()
}

/// Reads `text` with `serde_json::value::RawValue::from_string`, which accepts
/// one JSON value and keeps its text. The result is `json_value` of the text.
#[verifier::external_body]
pub(crate) fn read_value(text: String) -> (value: Option<String>)
    ensures
        value.deep_view() == json_value(text@),
{
    RawValue::from_string(text).ok().map(|raw| String::from(Box::<str>::from(raw)))
}

/// Writes a string with `serde_json::to_string`. The result is `json_quoted` of it.
#[verifier::external_body]
pub(crate) fn write_string(s: &str) -> (text: String)
    ensures
        text@ == json_quoted(s@),
{
    serde_json::to_string(s).unwrap_or_default()
}

} // verus!
