//! Trusted access to the JSON shape of one log line.
//!
//! Each function parses the given line with `serde_json` afresh and
//! reads one field of it: accessors stay functions from plain values
//! to plain values, at the price of re-parsing a (short) line per
//! field. What a call returns depends on the line and the other
//! arguments alone, so each result is given a name that the parser's
//! contracts are stated over.

use vstd::prelude::*;

verus! {

pub uninterp spec fn json_str_field_of(line: Seq<char>, key: Seq<char>) -> Option<Seq<char>>;

pub uninterp spec fn json_bool_field_of(line: Seq<char>, key: Seq<char>) -> Option<bool>;

pub uninterp spec fn json_msg_str_field_of(line: Seq<char>, key: Seq<char>) -> Option<Seq<char>>;

pub uninterp spec fn json_block_count_of(line: Seq<char>) -> Option<usize>;

pub uninterp spec fn json_block_str_field_of(line: Seq<char>, idx: usize, key: Seq<char>) -> Option<
    Seq<char>,
>;

pub uninterp spec fn json_block_bool_field_of(line: Seq<char>, idx: usize, key: Seq<char>) -> Option<
    bool,
>;

pub uninterp spec fn json_block_input_of(line: Seq<char>, idx: usize) -> Option<Seq<char>>;

pub uninterp spec fn json_block_content_str_of(line: Seq<char>, idx: usize) -> Option<Seq<char>>;

pub uninterp spec fn json_block_item_count_of(line: Seq<char>, idx: usize) -> Option<usize>;

pub uninterp spec fn json_block_item_text_of(line: Seq<char>, idx: usize, item: usize) -> Option<
    Seq<char>,
>;

pub uninterp spec fn rfc3339_millis_of(s: Seq<char>) -> Option<i64>;

/// Relies on serde_json::from_str and Value::{get, as_str}: the string
/// value of a top-level field of the JSON object encoded by `line`.
#[verifier::external_body]
pub fn json_str_field(line: &str, key: &str) -> (r: Option<String>)
    ensures
        r is Some <==> json_str_field_of(line@, key@) is Some,
        r is Some ==> r.unwrap()@ == json_str_field_of(line@, key@).unwrap(),
{
    let v: serde_json::Value = serde_json::from_str(line).ok()?;
    Some(v.get(key)?.as_str()?.to_string())
}

/// Relies on serde_json::from_str and Value::{get, as_bool}: the
/// boolean value of a top-level field.
#[verifier::external_body]
pub fn json_bool_field(line: &str, key: &str) -> (r: Option<bool>)
    ensures
        r == json_bool_field_of(line@, key@),
{
    let v: serde_json::Value = serde_json::from_str(line).ok()?;
    v.get(key)?.as_bool()
}

/// Relies on serde_json::from_str and Value::{get, as_str}: the string
/// value of a field of the top-level `message` object.
#[verifier::external_body]
pub fn json_msg_str_field(line: &str, key: &str) -> (r: Option<String>)
    ensures
        r is Some <==> json_msg_str_field_of(line@, key@) is Some,
        r is Some ==> r.unwrap()@ == json_msg_str_field_of(line@, key@).unwrap(),
{
    let v: serde_json::Value = serde_json::from_str(line).ok()?;
    Some(v.get("message")?.get(key)?.as_str()?.to_string())
}

/// Relies on serde_json::from_str and Value::{get, as_array}: the
/// number of blocks when `message.content` is an array.
#[verifier::external_body]
pub fn json_block_count(line: &str) -> (r: Option<usize>)
    ensures
        r == json_block_count_of(line@),
{
    let v: serde_json::Value = serde_json::from_str(line).ok()?;
    Some(v.get("message")?.get("content")?.as_array()?.len())
}

/// Relies on serde_json::from_str and Value::{get, as_array, as_str}:
/// the string value of a field of block `idx` of `message.content`.
#[verifier::external_body]
pub fn json_block_str_field(line: &str, idx: usize, key: &str) -> (r: Option<String>)
    ensures
        r is Some <==> json_block_str_field_of(line@, idx, key@) is Some,
        r is Some ==> r.unwrap()@ == json_block_str_field_of(line@, idx, key@).unwrap(),
{
    let v: serde_json::Value = serde_json::from_str(line).ok()?;
    Some(v.get("message")?.get("content")?.as_array()?.get(idx)?.get(key)?.as_str()?.to_string())
}

/// Relies on serde_json::from_str and Value::{get, as_array, as_bool}:
/// the boolean value of a field of block `idx`.
#[verifier::external_body]
pub fn json_block_bool_field(line: &str, idx: usize, key: &str) -> (r: Option<bool>)
    ensures
        r == json_block_bool_field_of(line@, idx, key@),
{
    let v: serde_json::Value = serde_json::from_str(line).ok()?;
    v.get("message")?.get("content")?.as_array()?.get(idx)?.get(key)?.as_bool()
}

/// Relies on serde_json::from_str, Value::get and serde_json::to_string:
/// the compact JSON text of the `input` field of block `idx`.
#[verifier::external_body]
pub fn json_block_input(line: &str, idx: usize) -> (r: Option<String>)
    ensures
        r is Some <==> json_block_input_of(line@, idx) is Some,
        r is Some ==> r.unwrap()@ == json_block_input_of(line@, idx).unwrap(),
{
    let v: serde_json::Value = serde_json::from_str(line).ok()?;
    let input = v.get("message")?.get("content")?.as_array()?.get(idx)?.get("input")?;
    serde_json::to_string(input).ok()
}

/// Relies on serde_json::from_str and Value::{get, as_str}: the
/// `content` field of block `idx` when it is a string.
#[verifier::external_body]
pub fn json_block_content_str(line: &str, idx: usize) -> (r: Option<String>)
    ensures
        r is Some <==> json_block_content_str_of(line@, idx) is Some,
        r is Some ==> r.unwrap()@ == json_block_content_str_of(line@, idx).unwrap(),
{
    let v: serde_json::Value = serde_json::from_str(line).ok()?;
    let arr = v.get("message")?.get("content")?.as_array()?;
    Some(arr.get(idx)?.get("content")?.as_str()?.to_string())
}

/// Relies on serde_json::from_str and Value::{get, as_array}: the
/// number of items when the `content` field of block `idx` is an array.
#[verifier::external_body]
pub fn json_block_item_count(line: &str, idx: usize) -> (r: Option<usize>)
    ensures
        r == json_block_item_count_of(line@, idx),
{
    let v: serde_json::Value = serde_json::from_str(line).ok()?;
    let arr = v.get("message")?.get("content")?.as_array()?;
    Some(arr.get(idx)?.get("content")?.as_array()?.len())
}

/// Relies on serde_json::from_str and Value::{get, as_array, as_str}:
/// the `text` field of item `item` of the `content` array of block
/// `idx`.
#[verifier::external_body]
pub fn json_block_item_text(line: &str, idx: usize, item: usize) -> (r: Option<String>)
    ensures
        r is Some <==> json_block_item_text_of(line@, idx, item) is Some,
        r is Some ==> r.unwrap()@ == json_block_item_text_of(line@, idx, item).unwrap(),
{
    let v: serde_json::Value = serde_json::from_str(line).ok()?;
    let arr = v.get("message")?.get("content")?.as_array()?;
    let inner = arr.get(idx)?.get("content")?.as_array()?;
    Some(inner.get(item)?.get("text")?.as_str()?.to_string())
}

/// Relies on chrono::DateTime::parse_from_rfc3339 and
/// timestamp_millis: the instant named by an RFC 3339 timestamp, in
/// epoch milliseconds.
#[verifier::external_body]
pub fn parse_rfc3339_millis(s: &str) -> (r: Option<i64>)
    ensures
        r == rfc3339_millis_of(s@),
{
    match chrono::DateTime::parse_from_rfc3339(s) {
        Ok(dt) => Some(dt.timestamp_millis()),
        Err(_) => None,
    }
}

} // verus!
