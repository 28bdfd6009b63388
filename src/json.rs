//! A JSON value as the codec reads and writes it, and its mathematical view.
use vstd::prelude::*;

use crate::view::Text;

verus! {

/// A JSON number of serde_json, carried through unchanged.
#[verifier::external_type_specification]
#[verifier::external_body]
pub struct ExNumber(serde_json::Number);

/// Relies on serde_json::Number's derived Clone: the copy is the same number.
pub assume_specification[ <serde_json::Number as Clone>::clone ](n: &serde_json::Number) -> (r:
    serde_json::Number)
    ensures
        r == *n,
;

/// A JSON value. Numbers that fit an `i64` are `Int`; any other number is kept as it was read.
/// An object keeps its entries in order.
#[derive(Debug, PartialEq)]
pub enum Json {
    Null,
    Bool(bool),
    Int(i64),
    Number(serde_json::Number),
    String(String),
    Array(Vec<Json>),
    Object(Vec<(String, Json)>),
}

pub enum JsonView {
    Null,
    Bool(bool),
    Int(i64),
    Number(serde_json::Number),
    String(Text),
    Array(Seq<JsonView>),
    Object(Seq<(Text, JsonView)>),
}

pub open spec fn json_view(j: Json) -> JsonView
    decreases j,
{
    match j {
        Json::Null => JsonView::Null,
        Json::Bool(b) => JsonView::Bool(b),
        Json::Int(i) => JsonView::Int(i),
        Json::Number(n) => JsonView::Number(n),
        Json::String(s) => JsonView::String(s@),
        Json::Array(items) => JsonView::Array(json_items_view(items)),
        Json::Object(entries) => JsonView::Object(json_entries_view(entries)),
    }
}

pub open spec fn json_items_view(items: Vec<Json>) -> Seq<JsonView>
    decreases items,
{
    Seq::new(
        items@.len(),
        |k: int|
            if 0 <= k < items@.len() {
                json_view(items@[k])
            } else {
                arbitrary()
            },
    )
}

pub open spec fn json_entries_view(entries: Vec<(String, Json)>) -> Seq<(Text, JsonView)>
    decreases entries,
{
    Seq::new(
        entries@.len(),
        |k: int|
            if 0 <= k < entries@.len() {
                (entries@[k].0@, json_view(entries@[k].1))
            } else {
                arbitrary()
            },
    )
}

/// The items of an array; empty for any other value.
pub open spec fn array_items(j: JsonView) -> Seq<JsonView> {
    match j {
        JsonView::Array(xs) => xs,
        _ => Seq::empty(),
    }
}

/// The entries of an object; empty for any other value.
pub open spec fn object_entries(j: JsonView) -> Seq<(Text, JsonView)> {
    match j {
        JsonView::Object(e) => e,
        _ => Seq::empty(),
    }
}

} // verus!
