//! The door to `serde_json`, which reads the model's reply. A parsed document
//! is kept as the `serde_json::Value` it is; the library looks into it through
//! the few calls declared here and takes their contracts on trust.

use vstd::prelude::*;

verus! {

/// A JSON document as a mathematical value.
pub enum JsonTree {
    Null,
    Bool(bool),
    /// A number: the number itself where it is an integer from 0 to
    /// `u64::MAX`, and `None` for every other number.
    Number(Option<u64>),
    Text(Seq<char>),
    Array(Seq<JsonTree>),
    /// An object: its members by their keys.
    Object(Map<Seq<char>, JsonTree>),
}

/// The member of an object under `key`; `None` if the object has no such key
/// or the tree is no object.
pub open spec fn member_of(tree: JsonTree, key: Seq<char>) -> Option<JsonTree> {
    match tree {
        JsonTree::Object(members) => if members.contains_key(key) {
            Some(members[key])
        } else {
            None
        },
        _ => None,
    }
}

/// The elements of an array; `None` if the tree is no array.
pub open spec fn items_of(tree: JsonTree) -> Option<Seq<JsonTree>> {
    match tree {
        JsonTree::Array(items) => Some(items),
        _ => None,
    }
}

/// The characters of a string; `None` if the tree is no string.
pub open spec fn text_of(tree: JsonTree) -> Option<Seq<char>> {
    match tree {
        JsonTree::Text(text) => Some(text),
        _ => None,
    }
}

/// An integer from 0 to `u64::MAX`; `None` if the tree is another number or
/// no number.
pub open spec fn unsigned_of(tree: JsonTree) -> Option<u64> {
    match tree {
        JsonTree::Number(number) => number,
        _ => None,
    }
}

/// `serde_json::Value`, a parsed JSON document or a part of one. Its inside is
/// not visible to the verifier.
#[verifier::external_type_specification]
#[verifier::external_body]
pub struct ExValue(serde_json::Value);

/// `serde_json::Error`, what `serde_json::from_str` returns for a text that is
/// not JSON.
#[verifier::external_type_specification]
#[verifier::external_body]
pub struct ExError(serde_json::Error);

/// What a `serde_json::Value` holds.
pub uninterp spec fn json_tree(value: serde_json::Value) -> JsonTree;

/// What `serde_json::from_str` reads from `text`, if it reads a document.
pub uninterp spec fn json_document(text: Seq<char>) -> Option<JsonTree>;

/// What each of the values holds.
pub open spec fn json_trees(values: Seq<serde_json::Value>) -> Seq<JsonTree> {
    Seq::new(values.len(), |i: int| json_tree(values[i]))
}

/// `serde_json::from_str` at the type `serde_json::Value`: reads `text` as one
/// JSON document. The same text always reads as the same document, or always
/// fails.
#[verifier::external_body]
pub(crate) fn read_document(text: &str) -> (result: Result<serde_json::Value, serde_json::Error>)
    ensures
        match result {
            Ok(value) => json_document(text@) == Some(json_tree(value)),
            Err(_) => json_document(text@) is None,
        },
{
    serde_json::from_str::<serde_json::Value>(text)
}

/// `serde_json::Value::get` with a string index: the member of an object
/// under `key`; `None` if there is no such key or `value` is no object.
#[verifier::external_body]
pub(crate) fn member<'a>(value: &'a serde_json::Value, key: &str) -> (found: Option<
    &'a serde_json::Value,
>)
    ensures
        match found {
            Some(inner) => member_of(json_tree(*value), key@) == Some(json_tree(*inner)),
            None => member_of(json_tree(*value), key@) is None,
        },
{
    value.get(key)
}

/// `serde_json::Value::as_array`: the vector of an array's elements; `None`
/// for any other kind of value.
pub assume_specification<'a>[ serde_json::Value::as_array ](value: &'a serde_json::Value) -> (items:
    Option<&'a Vec<serde_json::Value>>)
    ensures
        match items {
            Some(elements) => items_of(json_tree(*value)) == Some(json_trees(elements@)),
            None => items_of(json_tree(*value)) is None,
        },
;

/// `serde_json::Value::as_str`: the text of a string; `None` for any other
/// kind of value.
pub assume_specification<'a>[ serde_json::Value::as_str ](value: &'a serde_json::Value) -> (text:
    Option<&'a str>)
    ensures
        match text {
            Some(characters) => text_of(json_tree(*value)) == Some(characters@),
            None => text_of(json_tree(*value)) is None,
        },
;

/// `serde_json::Value::as_u64`: the number, if the value is an integer from 0
/// to `u64::MAX`; `None` for any other number or kind of value.
pub assume_specification[ serde_json::Value::as_u64 ](value: &serde_json::Value) -> (number: Option<
    u64,
>)
    ensures
        number == unsigned_of(json_tree(*value)),
;

} // verus!
