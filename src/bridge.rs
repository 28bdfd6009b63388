//! The calls into serde_json: JSON text to values and back, and values to the codec's `Json`.
use vstd::prelude::*;

use crate::json::{array_items, json_entries_view, json_items_view, json_view, object_entries, Json, JsonView};
use crate::view::Text;

verus! {

broadcast use vstd::std_specs::vec::axiom_vec_decreases_to_view;

#[verifier::external_type_specification]
#[verifier::external_body]
pub struct ExValue(serde_json::Value);

#[verifier::external_type_specification]
#[verifier::external_body]
pub struct ExError(serde_json::Error);

/// The JSON value that a serde_json value holds.
pub uninterp spec fn value_view(v: serde_json::Value) -> JsonView;

/// The number of nodes of a serde_json value.
pub uninterp spec fn value_size(v: serde_json::Value) -> nat;

/// The integer a serde_json number holds, where it holds one that fits an `i64`.
pub uninterp spec fn int_of(n: serde_json::Number) -> Option<i64>;

/// The number that serde_json makes of an integer.
pub uninterp spec fn number_of_int(i: i64) -> serde_json::Number;

/// The JSON value that a text holds, where serde_json reads it as JSON (it refuses values nested
/// more than 128 levels deep).
pub uninterp spec fn parsed(text: Text) -> Option<JsonView>;

/// The text serde_json writes for a JSON value.
pub uninterp spec fn text_of(j: JsonView) -> Text;

/// How a number is seen: as an integer where it holds one that fits an `i64`.
pub open spec fn number_view(n: serde_json::Number) -> JsonView {
    match int_of(n) {
        Some(i) => JsonView::Int(i),
        None => JsonView::Number(n),
    }
}

/// The form in which a JSON value comes back from serde_json: every number as `number_view`
/// sees it.
pub open spec fn written_form(j: JsonView) -> JsonView
    decreases j,
{
    match j {
        JsonView::Number(n) => number_view(n),
        JsonView::Array(xs) => JsonView::Array(
            Seq::new(xs.len(), |k: int| if 0 <= k < xs.len() { written_form(xs[k]) } else { arbitrary() }),
        ),
        JsonView::Object(e) => JsonView::Object(
            Seq::new(
                e.len(),
                |k: int| if 0 <= k < e.len() { (e[k].0, written_form(e[k].1)) } else { arbitrary() },
            ),
        ),
        _ => j,
    }
}

/// No two entries of an object have the same key.
pub open spec fn keys_unique(e: Seq<(Text, JsonView)>) -> bool {
    forall|a: int, b: int| 0 <= a < b < e.len() ==> e[a].0 != e[b].0
}

/// Every object within `j`, `j` too, has keys that are unique.
pub open spec fn keys_unique_throughout(j: JsonView) -> bool
    decreases j,
{
    match j {
        JsonView::Array(xs) => forall|k: int| 0 <= k < xs.len() ==> keys_unique_throughout(#[trigger] xs[k]),
        JsonView::Object(e) => keys_unique(e) && forall|k: int|
            0 <= k < e.len() ==> keys_unique_throughout(#[trigger] e[k].1),
        _ => true,
    }
}

pub open spec fn values_view(items: Vec<serde_json::Value>) -> Seq<JsonView> {
    Seq::new(items@.len(), |k: int| value_view(items@[k]))
}

pub open spec fn value_entries_view(entries: Vec<(String, serde_json::Value)>) -> Seq<(Text, JsonView)> {
    Seq::new(entries@.len(), |k: int| (entries@[k].0@, value_view(entries@[k].1)))
}

/// One level of a serde_json value: its kind, and its children as they are.
pub enum ValueNode {
    Null,
    Bool(bool),
    Int(i64),
    Number(serde_json::Number),
    String(String),
    Array(Vec<serde_json::Value>),
    Object(Vec<(String, serde_json::Value)>),
}

/// Relies on serde_json's `Value`: an enum whose variants own their children, so that each child
/// is a smaller value; an object's entries come out in the map's order (insertion order, with
/// the `preserve_order` feature).
#[verifier::external_body]
fn take_apart(v: serde_json::Value) -> (r: ValueNode)
    ensures
        match r {
            ValueNode::Null => value_view(v) == JsonView::Null,
            ValueNode::Bool(b) => value_view(v) == JsonView::Bool(b),
            ValueNode::Int(i) => value_view(v) == JsonView::Int(i),
            ValueNode::Number(n) => value_view(v) == number_view(n),
            ValueNode::String(s) => value_view(v) == JsonView::String(s@),
            ValueNode::Array(items) => value_view(v) == JsonView::Array(values_view(items))
                && forall|k: int| 0 <= k < items@.len() ==> value_size(#[trigger] items@[k]) < value_size(v),
            ValueNode::Object(entries) => value_view(v) == JsonView::Object(value_entries_view(entries))
                && forall|k: int| 0 <= k < entries@.len() ==> value_size(#[trigger] entries@[k].1) < value_size(v),
        },
{
    match v {
        serde_json::Value::Null => ValueNode::Null,
        serde_json::Value::Bool(b) => ValueNode::Bool(b),
        serde_json::Value::Number(n) => ValueNode::Number(n),
        serde_json::Value::String(s) => ValueNode::String(s),
        serde_json::Value::Array(a) => ValueNode::Array(a),
        serde_json::Value::Object(m) => ValueNode::Object(m.into_iter().collect()),
    }
}

/// Relies on serde_json's `Value` constructors and `Map`'s `FromIterator`, which inserts the entries
/// in order (an `IndexMap` with the `preserve_order` feature); only where keys repeat does the map
/// hold fewer entries.
#[verifier::external_body]
fn make_value(n: ValueNode) -> (r: serde_json::Value)
    ensures
        match n {
            ValueNode::Null => value_view(r) == JsonView::Null,
            ValueNode::Bool(b) => value_view(r) == JsonView::Bool(b),
            ValueNode::Int(i) => value_view(r) == JsonView::Int(i),
            ValueNode::Number(x) => value_view(r) == number_view(x),
            ValueNode::String(s) => value_view(r) == JsonView::String(s@),
            ValueNode::Array(items) => value_view(r) == JsonView::Array(values_view(items)),
            ValueNode::Object(entries) => keys_unique(value_entries_view(entries)) ==> value_view(r)
                == JsonView::Object(value_entries_view(entries)),
        },
{
    match n {
        ValueNode::Null => serde_json::Value::Null,
        ValueNode::Bool(b) => serde_json::Value::Bool(b),
        ValueNode::Int(i) => serde_json::Value::from(i),
        ValueNode::Number(x) => serde_json::Value::Number(x),
        ValueNode::String(s) => serde_json::Value::String(s),
        ValueNode::Array(items) => serde_json::Value::Array(items),
        ValueNode::Object(entries) => serde_json::Value::Object(entries.into_iter().collect()),
    }
}

/// Relies on serde_json's derived `Clone` for `Value`: the copy holds the same value.
pub assume_specification[ <serde_json::Value as Clone>::clone ](v: &serde_json::Value) -> (r: serde_json::Value)
    ensures
        value_view(r) == value_view(*v),
        value_size(r) == value_size(*v),
;

/// Relies on `serde_json::Number::as_i64`.
pub assume_specification[ serde_json::Number::as_i64 ](n: &serde_json::Number) -> (r: Option<i64>)
    ensures
        r == int_of(*n),
;

/// Relies on `serde_json::Error::line`: where the error was found, for the message.
pub assume_specification[ serde_json::Error::line ](e: &serde_json::Error) -> usize;

/// Relies on `serde_json::Error::column`: where the error was found, for the message.
pub assume_specification[ serde_json::Error::column ](e: &serde_json::Error) -> usize;

/// Relies on `serde_json::Number::from(i64)`: the number holding the integer, which `as_i64`
/// gives back.
#[verifier::external_body]
pub(crate) fn int_number(i: i64) -> (r: serde_json::Number)
    ensures
        r == number_of_int(i),
        int_of(r) == Some(i),
{
    serde_json::Number::from(i)
}

/// Relies on `serde_json::from_str` into a `Value`: the value the text holds, or an error where
/// the text is not JSON.
#[verifier::external_body]
fn parse_value(text: &str) -> (r: Result<serde_json::Value, serde_json::Error>)
    ensures
        match r {
            Ok(v) => parsed(text@) == Some(value_view(v)),
            Err(_) => parsed(text@) is None,
        },
{
    serde_json::from_str(text)
}

/// Relies on `Display` for serde_json's `Value`, which writes compact JSON.
#[verifier::external_body]
fn value_text(v: &serde_json::Value) -> (r: String)
    ensures
        r@ == text_of(value_view(*v)),
{
    v.to_string()
}

/// The codec's JSON value of a serde_json value.
fn json_of_value(v: serde_json::Value) -> (r: Json)
    ensures
        json_view(r) == value_view(v),
    decreases value_size(v),
{
    let ghost whole = v;
    match take_apart(v) {
        ValueNode::Null => Json::Null,
        ValueNode::Bool(b) => Json::Bool(b),
        ValueNode::Int(i) => Json::Int(i),
        ValueNode::Number(n) => match n.as_i64() {
            Some(i) => Json::Int(i),
            None => Json::Number(n),
        },
        ValueNode::String(s) => Json::String(s),
        ValueNode::Array(items) => {
            let mut out: Vec<Json> = Vec::new();
            let mut i: usize = 0;
            while i < items.len()
                invariant
                    i <= items@.len(),
                    out@.len() == i,
                    whole == v,
                    forall|k: int| 0 <= k < items@.len() ==> value_size(#[trigger] items@[k]) < value_size(whole),
                    forall|k: int| 0 <= k < i ==> json_view(#[trigger] out@[k]) == value_view(items@[k]),
                decreases items.len() - i,
            {
                let x = items[i].clone();
                assert(value_size(x) < value_size(v));
                out.push(json_of_value(x));
                i += 1;
            }
            assert(json_items_view(out) =~= values_view(items));
            Json::Array(out)
        },
        ValueNode::Object(entries) => {
            let mut out: Vec<(String, Json)> = Vec::new();
            let mut i: usize = 0;
            while i < entries.len()
                invariant
                    i <= entries@.len(),
                    out@.len() == i,
                    whole == v,
                    forall|k: int| 0 <= k < entries@.len() ==> value_size(#[trigger] entries@[k].1) < value_size(whole),
                    forall|k: int| 0 <= k < i ==> (#[trigger] out@[k]).0@ == entries@[k].0@ && json_view(out@[k].1) == value_view(entries@[k].1),
                decreases entries.len() - i,
            {
                let x = entries[i].1.clone();
                assert(value_size(x) < value_size(v));
                out.push((entries[i].0.clone(), json_of_value(x)));
                i += 1;
            }
            assert(json_entries_view(out) =~= value_entries_view(entries));
            Json::Object(out)
        },
    }
}

/// The serde_json value of the codec's JSON value.
fn value_of_json(j: &Json) -> (r: serde_json::Value)
    ensures
        keys_unique_throughout(json_view(*j)) ==> value_view(r) == written_form(json_view(*j)),
    decreases *j, 1int,
{
    match j {
        Json::Null => make_value(ValueNode::Null),
        Json::Bool(b) => make_value(ValueNode::Bool(*b)),
        Json::Int(i) => make_value(ValueNode::Int(*i)),
        Json::Number(n) => make_value(ValueNode::Number(n.clone())),
        Json::String(s) => make_value(ValueNode::String(s.clone())),
        Json::Array(items) => {
            let out = values_of_items(items);
            let r = make_value(ValueNode::Array(out));
            proof {
                if keys_unique_throughout(json_view(*j)) {
                    assert(values_view(out) =~= array_items(written_form(json_view(*j))));
                }
            }
            r
        },
        Json::Object(entries) => {
            let out = values_of_entries(entries);
            let r = make_value(ValueNode::Object(out));
            proof {
                if keys_unique_throughout(json_view(*j)) {
                    assert(value_entries_view(out) =~= object_entries(written_form(json_view(*j))));
                }
            }
            r
        },
    }
}

fn values_of_items(items: &Vec<Json>) -> (r: Vec<serde_json::Value>)
    ensures
        r@.len() == items@.len(),
        forall|k: int| 0 <= k < items@.len() && keys_unique_throughout(json_view(items@[k])) ==>
            value_view(#[trigger] r@[k]) == written_form(json_view(items@[k])),
    decreases items@, 0int,
{
    let mut out: Vec<serde_json::Value> = Vec::new();
    let mut i: usize = 0;
    while i < items.len()
        invariant
            i <= items@.len(),
            out@.len() == i,
            forall|k: int| 0 <= k < i && keys_unique_throughout(json_view(items@[k])) ==>
                value_view(#[trigger] out@[k]) == written_form(json_view(items@[k])),
        decreases items.len() - i,
    {
        out.push(value_of_json(&items[i]));
        i += 1;
    }
    out
}

fn values_of_entries(entries: &Vec<(String, Json)>) -> (r: Vec<(String, serde_json::Value)>)
    ensures
        r@.len() == entries@.len(),
        forall|k: int| 0 <= k < entries@.len() ==> (#[trigger] r@[k]).0@ == entries@[k].0@,
        forall|k: int| 0 <= k < entries@.len() && keys_unique_throughout(json_view(entries@[k].1)) ==>
            value_view((#[trigger] r@[k]).1) == written_form(json_view(entries@[k].1)),
    decreases entries@, 0int,
{
    let mut out: Vec<(String, serde_json::Value)> = Vec::new();
    let mut i: usize = 0;
    while i < entries.len()
        invariant
            i <= entries@.len(),
            out@.len() == i,
            forall|k: int| 0 <= k < i ==> (#[trigger] out@[k]).0@ == entries@[k].0@,
            forall|k: int| 0 <= k < i && keys_unique_throughout(json_view(entries@[k].1)) ==>
                value_view((#[trigger] out@[k]).1) == written_form(json_view(entries@[k].1)),
        decreases entries.len() - i,
    {
        out.push((entries[i].0.clone(), value_of_json(&entries[i].1)));
        i += 1;
    }
    out
}

/// The JSON value that a text holds, or where the text stops being JSON.
pub fn parse_json(text: &str) -> (r: Result<Json, (usize, usize)>)
    ensures
        match r {
            Ok(j) => parsed(text@) == Some(json_view(j)),
            Err(_) => parsed(text@) is None,
        },
{
    match parse_value(text) {
        Ok(v) => Ok(json_of_value(v)),
        Err(e) => Err((e.line(), e.column())),
    }
}

/// The text of a JSON value, as serde_json writes it.
pub fn write_json(j: &Json) -> (r: String)
    ensures
        keys_unique_throughout(json_view(*j)) ==> r@ == text_of(written_form(json_view(*j))),
{
    let v = value_of_json(j);
    value_text(&v)
}

} // verus!
