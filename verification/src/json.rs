//! A JSON document as a tree of plain values, read with `serde_json`.
use vstd::prelude::*;

verus! {

/// One JSON value. A number keeps what `serde_json::Number::as_u64` gives
/// (its value when it is a non-negative integer); an object keeps its members
/// in the order of `serde_json::Map` (sorted by key, each key once).
#[derive(Debug)]
pub enum JsonValue {
    Null,
    Bool(bool),
    Number(Option<u64>),
    String(String),
    Array(Vec<JsonValue>),
    Object(Vec<(String, JsonValue)>),
}

#[verifier::external_type_specification]
#[verifier::external_body]
pub struct ExJsonDocumentValue(serde_json::Value);

/// What `serde_json::from_str::<serde_json::Value>` makes of a text: the
/// document tree, or nothing when the text is not one JSON document.
pub uninterp spec fn json_document(text: Seq<char>) -> Option<JsonValue>;

/// Parses `text` with `serde_json::from_str::<serde_json::Value>` and hands
/// back the tree node for node, or `None` when parsing fails.
#[verifier::external_body]
pub fn parse_json_document(text: &str) -> (r: Option<JsonValue>)
    ensures
        r == json_document(text@),
{
    match serde_json::from_str::<serde_json::Value>(text) {
        Ok(value) => Some(json_node(value)),
        Err(_) => None,
    }
}

/// Moves a `serde_json::Value` into a `JsonValue`, one node for one node.
#[verifier::external_body]
fn json_node(value: serde_json::Value) -> JsonValue {
    match value {
        serde_json::Value::Null => JsonValue::Null,
        serde_json::Value::Bool(b) => JsonValue::Bool(b),
        serde_json::Value::Number(n) => JsonValue::Number(n.as_u64()),
        serde_json::Value::String(s) => JsonValue::String(s),
        serde_json::Value::Array(items) => JsonValue::Array(items.into_iter().map(json_node).collect()),
        serde_json::Value::Object(m) => JsonValue::Object(m.into_iter().map(|(k, v)| (k, json_node(v))).collect()),
    }
}

/// The value of the first member of `members` named `key`.
pub open spec fn member(members: Seq<(String, JsonValue)>, key: Seq<char>) -> Option<JsonValue>
    decreases members.len(),
{
    if members.len() == 0 {
        None
    } else if members[0].0@ == key {
        Some(members[0].1)
    } else {
        member(members.drop_first(), key)
    }
}

/// Whether some member of `members` is named `key`.
pub open spec fn has_member(members: Seq<(String, JsonValue)>, key: Seq<char>) -> bool {
    exists|i: int| 0 <= i < members.len() && (#[trigger] members[i]).0@ == key
}

pub proof fn lemma_member_found(members: Seq<(String, JsonValue)>, key: Seq<char>)
    ensures
        has_member(members, key) <==> member(members, key) is Some,
    decreases members.len(),
{
    if members.len() > 0 {
        lemma_member_found(members.drop_first(), key);
        if has_member(members, key) && members[0].0@ != key {
            let i = choose|i: int| 0 <= i < members.len() && (#[trigger] members[i]).0@ == key;
            assert(members.drop_first()[i - 1] == members[i]);
        }
        if has_member(members.drop_first(), key) {
            let i = choose|i: int|
                0 <= i < members.drop_first().len() && (#[trigger] members.drop_first()[i]).0@ == key;
            assert(members[i + 1] == members.drop_first()[i]);
        }
    }
}

/// Looks up the first member named `key`.
pub fn find_member<'a>(members: &'a Vec<(String, JsonValue)>, key: &str) -> (r: Option<&'a JsonValue>)
    ensures
        match r {
            Some(v) => member(members@, key@) == Some(*v),
            None => member(members@, key@) is None,
        },
{
    let n = members.len();
    let mut i: usize = 0;
    assert(members@.skip(0) =~= members@);
    while i < n
        invariant
            n == members@.len(),
            i <= n,
            member(members@, key@) == member(members@.skip(i as int), key@),
        decreases n - i,
    {
        proof {
            assert(members@.skip(i as int)[0] == members@[i as int]);
            assert(members@.skip(i as int).drop_first() =~= members@.skip(i + 1));
        }
        if crate::text::str_eq(members[i].0.as_str(), key) {
            return Some(&members[i].1);
        }
        i = i + 1;
    }
    None
}

} // verus!
