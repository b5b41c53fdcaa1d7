//! Reading JSON text with `serde_json`.
//!
//! `serde_json` does the parsing. What it hands back is opened one layer at a
//! time and carried over into the driver's own [`Json`].

use vstd::prelude::*;

use crate::json::{Json, JsonNumber, JsonView, NumberView};
#[allow(unused_imports)]
use crate::json::{jsons, lemma_array_model, lemma_object_model, pairs};

verus! {

/// A JSON value of `serde_json`.
#[verifier::external_type_specification]
#[verifier::external_body]
pub struct ExValue(serde_json::Value);

/// A JSON number of `serde_json`.
#[verifier::external_type_specification]
#[verifier::external_body]
pub struct ExNumber(serde_json::Number);

/// What a `serde_json::Value` contains.
pub uninterp spec fn held(value: serde_json::Value) -> JsonView;

/// What a `serde_json::Number` contains.
pub uninterp spec fn number_held(number: serde_json::Number) -> NumberView;

/// What `serde_json::from_str` makes of a text: the value in it, or the
/// message of the error.
pub uninterp spec fn parsed(text: Seq<char>) -> Result<JsonView, Seq<char>>;

/// What `serde_json::from_slice` makes of some bytes: the value in them, or
/// nothing where they are no JSON.
pub uninterp spec fn parsed_bytes(bytes: Seq<u8>) -> Option<JsonView>;

/// One layer of a `serde_json::Value`: which kind of value it is, and its
/// parts.
pub enum Layer {
    Null,
    Bool(bool),
    Number(serde_json::Number),
    Text(String),
    Array(Vec<serde_json::Value>),
    Object(Vec<(String, serde_json::Value)>),
}

/// What the parts of one layer contain.
pub open spec fn layer_held(layer: Layer) -> JsonView {
    match layer {
        Layer::Null => JsonView::Null,
        Layer::Bool(b) => JsonView::Bool(b),
        Layer::Number(number) => JsonView::Number(number_held(number)),
        Layer::Text(text) => JsonView::Text(text@),
        Layer::Array(items) => JsonView::Array(
            items@.map_values(|item: serde_json::Value| held(item)),
        ),
        Layer::Object(fields) => JsonView::Object(
            fields@.map_values(|field: (String, serde_json::Value)| (field.0@, held(field.1))),
        ),
    }
}

/// Tells the variants of `serde_json::Value` apart and moves its parts out.
/// Trusted: the parts contain what the value contained; an object hands out
/// its fields in the order of `serde_json::Map::into_iter`.
#[verifier::external_body]
fn layer(value: serde_json::Value) -> (layer: Layer)
    ensures
        layer_held(layer) == held(value),
{
    match value {
        serde_json::Value::Null => Layer::Null,
        serde_json::Value::Bool(b) => Layer::Bool(b),
        serde_json::Value::Number(number) => Layer::Number(number),
        serde_json::Value::String(text) => Layer::Text(text),
        serde_json::Value::Array(items) => Layer::Array(items),
        serde_json::Value::Object(fields) => Layer::Object(fields.into_iter().collect()),
    }
}

/// `serde_json::from_str`, at `serde_json::Value`. Trusted: the outcome is a
/// function of the text; an error is kept by its message.
#[verifier::external_body]
fn value_from_str(text: &str) -> (outcome: Result<serde_json::Value, String>)
    ensures
        match outcome {
            Ok(value) => parsed(text@) == Ok::<JsonView, Seq<char>>(held(value)),
            Err(message) => parsed(text@) == Err::<JsonView, Seq<char>>(message@),
        },
{
    serde_json::from_str::<serde_json::Value>(text).map_err(|error| error.to_string())
}

/// `serde_json::from_slice`, at `serde_json::Value`. Trusted: the outcome is a
/// function of the bytes.
#[verifier::external_body]
fn value_from_slice(bytes: &[u8]) -> (outcome: Option<serde_json::Value>)
    ensures
        match outcome {
            Some(value) => parsed_bytes(bytes@) == Some(held(value)),
            None => parsed_bytes(bytes@) is None,
        },
{
    serde_json::from_slice::<serde_json::Value>(bytes).ok()
}

/// `serde_json::Number::as_u64`. Trusted: some exactly where the number is an
/// integer from zero to `u64::MAX`, and then that integer.
#[verifier::external_body]
fn number_as_u64(number: &serde_json::Number) -> (word: Option<u64>)
    ensures
        word == match number_held(*number) {
            NumberView::Unsigned(n) => Some(n),
            _ => None,
        },
{
    number.as_u64()
}

/// `serde_json::Number::as_i64`. Trusted: some exactly where the number is an
/// integer from `i64::MIN` to `i64::MAX`, and then that integer.
#[verifier::external_body]
fn number_as_i64(number: &serde_json::Number) -> (word: Option<i64>)
    ensures
        word == match number_held(*number) {
            NumberView::Unsigned(n) if n <= i64::MAX => Some(n as i64),
            NumberView::Negative(n) => Some(n),
            _ => None,
        },
{
    number.as_i64()
}

/// `to_string` of a `serde_json::Number`. Trusted: a number that is no machine
/// integer is known by this text.
#[verifier::external_body]
fn number_text(number: &serde_json::Number) -> (text: String)
    ensures
        match number_held(*number) {
            NumberView::Other(known) => text@ == known,
            _ => true,
        },
{
    number.to_string()
}

/// A number of `serde_json`, carried over.
fn read_number(number: serde_json::Number) -> (result: JsonNumber)
    ensures
        result@ == number_held(number),
{
    match number_as_u64(&number) {
        Some(n) => JsonNumber::Unsigned(n),
        None => match number_as_i64(&number) {
            Some(n) => JsonNumber::Negative(n),
            None => JsonNumber::Other(number_text(&number)),
        },
    }
}

/// A value of `serde_json`, carried over.
fn read_value(value: serde_json::Value) -> (json: Json)
    ensures
        json@ == held(value),
    decreases held(value),
{
    match layer(value) {
        Layer::Null => Json::Null,
        Layer::Bool(b) => Json::Bool(b),
        Layer::Number(number) => Json::Number(read_number(number)),
        Layer::Text(text) => Json::Text(text),
        Layer::Array(items) => {
            let ghost all = items@;
            let ghost parts = held(value)->Array_0;
            let mut read: Vec<Json> = Vec::new();
            for item in iter: items
                invariant
                    iter.seq() == all,
                    held(value) == JsonView::Array(parts),
                    parts == all.map_values(|item: serde_json::Value| held(item)),
                    read@.len() == iter.index(),
                    forall|k: int| 0 <= k < read@.len() ==> (#[trigger] read@[k])@ == parts[k],
            {
                proof {
                    assert(parts[iter.index() as int] == held(item));
                    assert(decreases_to!(held(value) => held(value)->Array_0));
                    assert(decreases_to!(parts => parts[iter.index() as int]));
                }
                let json = read_value(item);
                read.push(json);
            }
            proof {
                lemma_array_model(read);
                assert(jsons(read@) =~= parts);
            }
            Json::Array(read)
        },
        Layer::Object(fields) => {
            let ghost all = fields@;
            let ghost parts = held(value)->Object_0;
            let mut read: Vec<(String, Json)> = Vec::new();
            for field in iter: fields
                invariant
                    iter.seq() == all,
                    held(value) == JsonView::Object(parts),
                    parts == all.map_values(
                        |field: (String, serde_json::Value)| (field.0@, held(field.1)),
                    ),
                    read@.len() == iter.index(),
                    forall|k: int|
                        0 <= k < read@.len() ==> ((#[trigger] read@[k]).0@, read@[k].1@)
                            == parts[k],
            {
                proof {
                    assert(parts[iter.index() as int] == (field.0@, held(field.1)));
                    assert(decreases_to!(held(value) => held(value)->Object_0));
                    assert(decreases_to!(parts => parts[iter.index() as int]));
                    assert(decreases_to!(parts[iter.index() as int] => parts[iter.index() as int].1));
                }
                let (key, part) = field;
                let json = read_value(part);
                read.push((key, json));
            }
            proof {
                lemma_object_model(read);
                assert(pairs(read@) =~= parts);
            }
            Json::Object(read)
        },
    }
}

/// Reads a JSON text; where it is none, gives the message of the error.
pub fn parse(text: &str) -> (outcome: Result<Json, String>)
    ensures
        match outcome {
            Ok(json) => parsed(text@) == Ok::<JsonView, Seq<char>>(json@),
            Err(message) => parsed(text@) == Err::<JsonView, Seq<char>>(message@),
        },
{
    match value_from_str(text) {
        Ok(value) => Ok(read_value(value)),
        Err(message) => Err(message),
    }
}

/// Reads JSON bytes; gives nothing where they are no JSON.
pub fn parse_bytes(bytes: &[u8]) -> (outcome: Option<Json>)
    ensures
        match outcome {
            Some(json) => parsed_bytes(bytes@) == Some(json@),
            None => parsed_bytes(bytes@) is None,
        },
{
    match value_from_slice(bytes) {
        Some(value) => Some(read_value(value)),
        None => None,
    }
}

} // verus!
