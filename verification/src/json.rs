//! JSON text read one level at a time: a value is its scalar, or the JSON
//! texts of its elements or members, which are read in turn when needed.
use vstd::prelude::*;
use crate::text::str_eq;
use serde_json::Value;

verus! {

/// A JSON number as the client reads it: its value as an `i64` when it is an
/// integer in that range, and the bits of its value as a floating-point number.
#[derive(Clone, Copy, PartialEq, Eq, Structural)]
pub struct JsonNumber {
    pub int: Option<i64>,
    pub float_bits: Option<u64>,
}

/// The top level of a JSON value: a scalar, or the JSON texts of the elements
/// of an array, or the keys and JSON texts of the members of an object.
pub enum JsonNode {
    Null,
    Bool(bool),
    Number(JsonNumber),
    Str(String),
    Array(Vec<String>),
    Object(Vec<(String, String)>),
}

/// A `JsonNode` as plain values.
pub enum JsonNodeView {
    Null,
    Bool(bool),
    Number(JsonNumber),
    Str(Seq<char>),
    Array(Seq<Seq<char>>),
    Object(Seq<(Seq<char>, Seq<char>)>),
}

impl View for JsonNode {
    type V = JsonNodeView;

    open spec fn view(&self) -> JsonNodeView {
        match self {
            JsonNode::Null => JsonNodeView::Null,
            JsonNode::Bool(b) => JsonNodeView::Bool(*b),
            JsonNode::Number(n) => JsonNodeView::Number(*n),
            JsonNode::Str(s) => JsonNodeView::Str(s@),
            JsonNode::Array(es) => JsonNodeView::Array(es@.map_values(|e: String| e@)),
            JsonNode::Object(ms) => JsonNodeView::Object(ms@.map_values(|m: (String, String)| (m.0@, m.1@))),
        }
    }
}

/// The view of an optional node.
pub open spec fn opt_node_view(n: Option<JsonNode>) -> Option<JsonNodeView> {
    match n {
        Some(x) => Some(x@),
        None => None,
    }
}

/// The view of an optional string.
pub open spec fn opt_str_view(s: Option<String>) -> Option<Seq<char>> {
    match s {
        Some(x) => Some(x@),
        None => None,
    }
}

/// What serde_json reads from a JSON text, one level deep (`None` when the
/// text is not JSON).
pub uninterp spec fn json_node(text: Seq<char>) -> Option<JsonNodeView>;

/// serde_json's `from_str::<Value>` on `text`, then the top level of the value:
/// a number by `as_i64` and the bits of `as_f64`, and each element or member by
/// its JSON text as `Value`'s `Display` writes it, which reads back as the same
/// value. What it gives depends on the text alone, and is named `json_node`.
#[verifier::external_body]
pub(crate) fn parse_json(text: &str) -> (r: Option<JsonNode>)
    ensures
        opt_node_view(r) == json_node(text@),
{
    Some(match serde_json::from_str::<Value>(text).ok()? {
        Value::Null => JsonNode::Null,
        Value::Bool(b) => JsonNode::Bool(b),
        Value::Number(n) => JsonNode::Number(JsonNumber { int: n.as_i64(), float_bits: n.as_f64().map(|f| f.to_bits()) }),
        Value::String(s) => JsonNode::Str(s),
        Value::Array(a) => JsonNode::Array(a.iter().map(|e| e.to_string()).collect()),
        Value::Object(m) => JsonNode::Object(m.iter().map(|(k, e)| (k.clone(), e.to_string())).collect()),
    })
}

/// The JSON text of the member `key` of an object (the first with that key);
/// `None` when the node is no object or has no such member, as `Value::get` does.
pub open spec fn member(node: JsonNodeView, key: Seq<char>) -> Option<Seq<char>> {
    match node {
        JsonNodeView::Object(ms) => member_in(ms, key),
        _ => None,
    }
}

/// The JSON text of the first member of `ms` whose key is `key`.
pub open spec fn member_in(ms: Seq<(Seq<char>, Seq<char>)>, key: Seq<char>) -> Option<Seq<char>>
    decreases ms.len(),
{
    if ms.len() == 0 {
        None
    } else if ms[0].0 == key {
        Some(ms[0].1)
    } else {
        member_in(ms.drop_first(), key)
    }
}

/// The member `key` of an object, read.
pub open spec fn member_node(node: JsonNodeView, key: Seq<char>) -> Option<JsonNodeView> {
    match member(node, key) {
        Some(t) => json_node(t),
        None => None,
    }
}

/// The member `key` of an object when it is a string (`get(key)` then `as_str`).
pub open spec fn str_member(node: JsonNodeView, key: Seq<char>) -> Option<Seq<char>> {
    match member_node(node, key) {
        Some(JsonNodeView::Str(s)) => Some(s),
        _ => None,
    }
}

/// The member `key` of an object when it is a number.
pub open spec fn number_member(node: JsonNodeView, key: Seq<char>) -> Option<JsonNumber> {
    match member_node(node, key) {
        Some(JsonNodeView::Number(n)) => Some(n),
        _ => None,
    }
}

/// The JSON text of the member `key` of `node`, if it has one.
pub fn get_member(node: &JsonNode, key: &str) -> (r: Option<String>)
    ensures
        opt_str_view(r) == member(node@, key@),
{
    match node {
        JsonNode::Object(ms) => {
            let ghost vs = ms@.map_values(|m: (String, String)| (m.0@, m.1@));
            assert(node@ == JsonNodeView::Object(vs));
            let mut i: usize = 0;
            assert(vs.skip(0) =~= vs);
            while i < ms.len()
                invariant
                    i <= ms.len(),
                    vs == ms@.map_values(|m: (String, String)| (m.0@, m.1@)),
                    node@ == JsonNodeView::Object(vs),
                    member_in(vs, key@) == member_in(vs.skip(i as int), key@),
                decreases ms.len() - i,
            {
                assert(vs.skip(i as int).drop_first() =~= vs.skip(i + 1));
                assert(vs.skip(i as int)[0] == vs[i as int]);
                if str_eq(ms[i].0.as_str(), key) {
                    let t = ms[i].1.clone();
                    assert(vs[i as int] == (ms@[i as int].0@, ms@[i as int].1@));
                    assert(vs.skip(i as int).len() > 0);
                    assert(member_in(vs.skip(i as int), key@) == Some(vs[i as int].1));
                    assert(t@ == vs[i as int].1);
                    return Some(t);
                }
                i += 1;
            }
            assert(vs.skip(i as int).len() == 0);
            None
        },
        _ => None,
    }
}

/// The member `key` of `node`, read.
pub fn get_member_node(node: &JsonNode, key: &str) -> (r: Option<JsonNode>)
    ensures
        opt_node_view(r) == member_node(node@, key@),
{
    match get_member(node, key) {
        Some(t) => parse_json(t.as_str()),
        None => None,
    }
}

/// The member `key` of `node` when it is a string.
pub fn get_str_member(node: &JsonNode, key: &str) -> (r: Option<String>)
    ensures
        opt_str_view(r) == str_member(node@, key@),
{
    match get_member_node(node, key) {
        Some(JsonNode::Str(s)) => Some(s),
        _ => None,
    }
}

/// The member `key` of `node` when it is a number.
pub fn get_number_member(node: &JsonNode, key: &str) -> (r: Option<JsonNumber>)
    ensures
        r == number_member(node@, key@),
{
    match get_member_node(node, key) {
        Some(JsonNode::Number(n)) => Some(n),
        _ => None,
    }
}

} // verus!
