//! The library's model of a JSON value, and JSON text of strings.
use vstd::prelude::*;
use vstd::utf8::encode_utf8;

verus! {

/// A JSON value, as the device's replies hold it.
///
/// A number is kept as its JSON text (as `serde_json` prints it), since the
/// protocol logic never computes with numbers. The entries of an object are
/// kept in order; a key is looked up at its first entry.
#[derive(Debug, PartialEq, Eq)]
pub enum JsonValue {
    Null,
    Bool(bool),
    Number(String),
    String(String),
    Array(Vec<JsonValue>),
    Object(Vec<(String, JsonValue)>),
}

/// The value stored under `key` in the entries of an object: that of the
/// first entry with this key, if any.
pub open spec fn entry_lookup(entries: Seq<(String, JsonValue)>, key: Seq<char>) -> Option<
    JsonValue,
>
    decreases entries.len(),
{
    if entries.len() == 0 {
        None
    } else if entries[0].0@ == key {
        Some(entries[0].1)
    } else {
        entry_lookup(entries.drop_first(), key)
    }
}

/// The value reached from `v` by following `keys`, one object entry per key.
pub open spec fn descend(v: JsonValue, keys: Seq<Seq<char>>) -> Option<JsonValue>
    decreases keys.len(),
{
    if keys.len() == 0 {
        Some(v)
    } else {
        match v {
            JsonValue::Object(entries) => match entry_lookup(entries@, keys[0]) {
                Some(w) => descend(w, keys.drop_first()),
                None => None,
            },
            _ => None,
        }
    }
}

/// Whether `v` nests `leaf` in one single-entry object per key, the first
/// key outermost.
pub open spec fn is_nest(v: JsonValue, keys: Seq<Seq<char>>, leaf: JsonValue) -> bool
    decreases keys.len(),
{
    if keys.len() == 0 {
        v == leaf
    } else {
        match v {
            JsonValue::Object(entries) => {
                &&& entries@.len() == 1
                &&& entries@[0].0@ == keys[0]
                &&& is_nest(entries@[0].1, keys.drop_first(), leaf)
            },
            _ => false,
        }
    }
}

/// The digit of a nibble in lower case hexadecimal.
pub open spec fn hex_digit(n: int) -> u8 {
    if n < 10 {
        (48 + n) as u8
    } else {
        (87 + n) as u8
    }
}

/// The JSON text of one character inside a string literal: quote, backslash
/// and control characters escaped, every other character in UTF-8.
pub open spec fn json_escape_char(c: char) -> Seq<u8> {
    if c == '"' {
        seq![92u8, 34u8]
    } else if c == '\\' {
        seq![92u8, 92u8]
    } else if c == '\x08' {
        seq![92u8, 98u8]
    } else if c == '\t' {
        seq![92u8, 116u8]
    } else if c == '\n' {
        seq![92u8, 110u8]
    } else if c == '\x0c' {
        seq![92u8, 102u8]
    } else if c == '\r' {
        seq![92u8, 114u8]
    } else if (c as int) < 0x20 {
        seq![92u8, 117u8, 48u8, 48u8, hex_digit((c as int) / 16), hex_digit((c as int) % 16)]
    } else {
        encode_utf8(seq![c])
    }
}

/// The escaped characters of a string, without the quotes.
pub open spec fn json_escape(s: Seq<char>) -> Seq<u8>
    decreases s.len(),
{
    if s.len() == 0 {
        Seq::empty()
    } else {
        json_escape(s.drop_last()) + json_escape_char(s.last())
    }
}

/// The JSON text of a string: its escaped characters between quotes.
pub open spec fn json_quoted(s: Seq<char>) -> Seq<u8> {
    seq![34u8] + json_escape(s) + seq![34u8]
}

/// The JSON text of a string, as `serde_json::to_vec` writes it for a `&str`.
///
/// `serde_json::to_vec` of a `str` goes to `format_escaped_str`, which writes
/// a quote, the string with `"` and `\` escaped by a backslash, the control
/// characters below 0x20 escaped as `\b \t \n \f \r` or `\u00xx` (lower case
/// hex), every other byte of the UTF-8 text as it is, and a quote. Writing to
/// a `Vec` cannot fail, and a `str` serialises without error, so the result
/// is always `Ok`.
#[verifier::external_body]
pub(crate) fn json_string_literal(s: &str) -> (r: Result<Vec<u8>, serde_json::Error>)
    ensures
        r is Ok,
        r->Ok_0@ == json_quoted(s@),
{
    serde_json::to_vec(s)
}

/// The value that `serde_json` parses out of a JSON text, as the library
/// models it, or `None` where `serde_json` refuses the text.
pub uninterp spec fn parsed_json(text: Seq<char>) -> Option<JsonValue>;

/// The library's model of a `serde_json` value: one arm per variant; a
/// number keeps the text that `serde_json` prints for it, an object keeps its
/// entries in the order of `serde_json`'s map.
#[verifier::external_body]
fn model_of(v: serde_json::Value) -> JsonValue {
    match v {
        serde_json::Value::Null => JsonValue::Null,
        serde_json::Value::Bool(b) => JsonValue::Bool(b),
        serde_json::Value::Number(n) => JsonValue::Number(n.to_string()),
        serde_json::Value::String(s) => JsonValue::String(s),
        serde_json::Value::Array(items) => JsonValue::Array(items.into_iter().map(model_of).collect()),
        serde_json::Value::Object(map) => JsonValue::Object(
            map.into_iter().map(|(k, v)| (k, model_of(v))).collect(),
        ),
    }
}

/// Parses a JSON text, as `serde_json::from_str::<serde_json::Value>` does.
///
/// `serde_json::from_str` reads one JSON value, surrounded by whitespace at
/// most, and fails on anything else (including nesting deeper than its
/// recursion limit). Its result depends on the text alone; what it is is
/// named `parsed_json` and not written out here.
#[verifier::external_body]
pub(crate) fn parse_json(text: &str) -> (r: Result<JsonValue, serde_json::Error>)
    ensures
        r is Ok <==> parsed_json(text@) is Some,
        r is Ok ==> parsed_json(text@) == Some(r->Ok_0),
{
    serde_json::from_str::<serde_json::Value>(text).map(model_of)
}

/// Whether `w` is the value that a request for `keys` makes of `v`: one
/// single-entry object per key, the first key outermost, where an empty key
/// stands for `null` and drops everything nested inside it.
pub open spec fn is_request_value(w: JsonValue, keys: Seq<Seq<char>>, v: JsonValue) -> bool
    decreases keys.len(),
{
    if keys.len() == 0 {
        w == v
    } else if keys[0].len() == 0 {
        w is Null
    } else {
        match w {
            JsonValue::Object(entries) => {
                &&& entries@.len() == 1
                &&& entries@[0].0@ == keys[0]
                &&& is_request_value(entries@[0].1, keys.drop_first(), v)
            },
            _ => false,
        }
    }
}

/// The JSON text `null`.
pub open spec fn null_text() -> Seq<u8> {
    seq![110u8, 117u8, 108u8, 108u8]
}

/// The compact JSON text of a value: no spaces, entries and items separated
/// by `,`, keys and strings quoted. This is the library's own model of the
/// text that `serde_json` writes; nothing ties it to `serde_json`'s writer
/// but the tests, which compare the two on concrete values.
pub open spec fn json_text(v: JsonValue) -> Seq<u8>
    decreases v, 0nat,
{
    match v {
        JsonValue::Null => null_text(),
        JsonValue::Bool(b) => if b {
            seq![116u8, 114u8, 117u8, 101u8]
        } else {
            seq![102u8, 97u8, 108u8, 115u8, 101u8]
        },
        JsonValue::Number(n) => encode_utf8(n@),
        JsonValue::String(s) => json_quoted(s@),
        JsonValue::Array(items) => seq![91u8] + items_text(items@) + seq![93u8],
        JsonValue::Object(entries) => seq![123u8] + entries_text(entries@) + seq![125u8],
    }
}

/// The items of an array, separated by `,`.
pub open spec fn items_text(items: Seq<JsonValue>) -> Seq<u8>
    decreases items, 1nat,
{
    if items.len() == 0 {
        Seq::empty()
    } else if items.len() == 1 {
        json_text(items[0])
    } else {
        items_text(items.subrange(0, items.len() - 1)) + seq![44u8] + json_text(
            items[items.len() - 1],
        )
    }
}

/// The entries of an object, each as `"key":value`, separated by `,`.
pub open spec fn entries_text(entries: Seq<(String, JsonValue)>) -> Seq<u8>
    decreases entries, 1nat,
{
    if entries.len() == 0 {
        Seq::empty()
    } else if entries.len() == 1 {
        json_quoted(entries[0].0@) + seq![58u8] + json_text(entries[0].1)
    } else {
        entries_text(entries.subrange(0, entries.len() - 1)) + seq![44u8] + json_quoted(
            entries[entries.len() - 1].0@,
        ) + seq![58u8] + json_text(entries[entries.len() - 1].1)
    }
}

} // verus!
