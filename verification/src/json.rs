//! JSON values. The values themselves are `serde_json`'s; this module gives them a
//! mathematical reading, [`JsonTree`], and wraps the calls that build, read and
//! write them.

use serde_json::Value;
use vstd::prelude::*;

verus! {

/// What a JSON value says, free of how it is stored.
#[verifier::ext_equal]
pub enum JsonTree {
    Null,
    Bool(bool),
    /// An integer.
    Integer(int),
    /// Any other number, as it is printed.
    Decimal(Seq<char>),
    Text(Seq<char>),
    Array(Seq<JsonTree>),
    Object(Map<Seq<char>, JsonTree>),
}

#[verifier::external_type_specification]
#[verifier::external_body]
pub struct ExValue(serde_json::Value);

#[verifier::external_type_specification]
#[verifier::external_body]
#[verifier::reject_recursive_types(K)]
#[verifier::reject_recursive_types(V)]
pub struct ExObject<K, V>(serde_json::Map<K, V>);

/// What a `serde_json::Value` holds.
pub uninterp spec fn json_tree(value: Value) -> JsonTree;

/// The members that a `serde_json::Map` holds.
pub uninterp spec fn object_members(object: serde_json::Map<String, Value>) -> Map<
    Seq<char>,
    JsonTree,
>;

/// The members of an object that has none.
pub open spec fn no_members() -> Map<Seq<char>, JsonTree> {
    Map::empty()
}

/// The trees of a sequence of values, in order.
pub open spec fn json_trees(values: Seq<Value>) -> Seq<JsonTree> {
    values.map_values(|value: Value| json_tree(value))
}

/// Whether a tree holds no number but integers, and its lists and objects are nested at most `depth`
/// levels deep.
pub open spec fn plain_within(tree: JsonTree, depth: nat) -> bool
    decreases depth,
{
    match tree {
        JsonTree::Decimal(_) => false,
        JsonTree::Array(items) => depth > 0 && forall|i: int|
            0 <= i < items.len() ==> plain_within(#[trigger] items[i], (depth - 1) as nat),
        JsonTree::Object(members) => depth > 0 && forall|name: Seq<char>| #[trigger]
            members.contains_key(name) ==> plain_within(members[name], (depth - 1) as nat),
        _ => true,
    }
}

/// The outcome of reading a JSON document: its tree, or the message of the error.
pub open spec fn read_outcome(outcome: Result<Value, String>) -> Result<JsonTree, Seq<char>> {
    match outcome {
        Ok(value) => Ok(json_tree(value)),
        Err(message) => Err(message@),
    }
}

/// The outcome of writing a JSON document: its text, or the message of the error.
pub open spec fn write_outcome(outcome: Result<String, String>) -> Result<Seq<char>, Seq<char>> {
    match outcome {
        Ok(text) => Ok(text@),
        Err(message) => Err(message@),
    }
}

/// What parsing a text as one JSON document gives: the document's tree, or the message
/// that says why the text is none.
pub uninterp spec fn parsed_json(text: Seq<char>) -> Result<JsonTree, Seq<char>>;

/// Whether a text is a JSON document with the given tree.
pub open spec fn reads_as(text: Seq<char>, tree: JsonTree) -> bool {
    parsed_json(text) == Ok::<_, Seq<char>>(tree)
}

/// What printing a JSON tree on one line gives: the text, or the message that says why
/// there is none.
pub uninterp spec fn printed_json(tree: JsonTree) -> Result<Seq<char>, Seq<char>>;

/// `serde_json::Map::new`: an object without members.
#[verifier::external_body]
pub(crate) fn object_new() -> (object: serde_json::Map<String, Value>)
    ensures
        object_members(object) == no_members(),
{
    serde_json::Map::new()
}

/// `serde_json::Map::insert`: sets one member, in place of any earlier one of that
/// name, and leaves the others as they are.
#[verifier::external_body]
pub(crate) fn object_insert(object: &mut serde_json::Map<String, Value>, name: &str, value: Value)
    ensures
        object_members(*final(object)) == object_members(*old(object)).insert(
            name@,
            json_tree(value),
        ),
{
    object.insert(name.to_string(), value);
}

/// `serde_json::Value::Object`: the value with these members.
#[verifier::external_body]
pub(crate) fn value_of_object(object: serde_json::Map<String, Value>) -> (value: Value)
    ensures
        json_tree(value) == JsonTree::Object(object_members(object)),
{
    Value::Object(object)
}

/// `serde_json::Value::Array`: the list of these values.
#[verifier::external_body]
pub(crate) fn value_of_array(items: Vec<Value>) -> (value: Value)
    ensures
        json_tree(value) == JsonTree::Array(json_trees(items@)),
{
    Value::Array(items)
}

/// `serde_json::Value::String`: the value that holds this text.
#[verifier::external_body]
pub(crate) fn value_of_text(text: &str) -> (value: Value)
    ensures
        json_tree(value) == JsonTree::Text(text@),
{
    Value::String(text.to_string())
}

/// `serde_json::Value::from` on an `i64`: the value that holds this integer.
#[verifier::external_body]
pub(crate) fn value_of_integer(n: i64) -> (value: Value)
    ensures
        json_tree(value) == JsonTree::Integer(n as int),
{
    Value::from(n)
}

/// `serde_json::Value::Bool`: the value that holds this truth value.
#[verifier::external_body]
pub(crate) fn value_of_bool(b: bool) -> (value: Value)
    ensures
        json_tree(value) == JsonTree::Bool(b),
{
    Value::Bool(b)
}

/// `serde_json::Value::Null`.
#[verifier::external_body]
pub(crate) fn value_null() -> (value: Value)
    ensures
        json_tree(value) == JsonTree::Null,
{
    Value::Null
}

/// `Clone::clone` of `serde_json::Value`: the copy says what the value says.
pub assume_specification[ <Value as Clone>::clone ](value: &Value) -> (copy: Value)
    ensures
        json_tree(copy) == json_tree(*value),
;

/// `serde_json::from_str` at type `Value`: reads a text as one JSON document. The outcome
/// depends on the text alone, and [`parsed_json`] names it: a value, or the message of
/// the error. What the grammar accepts is not said here.
#[verifier::external_body]
pub(crate) fn value_from_str(text: &str) -> (outcome: Result<Value, String>)
    ensures
        read_outcome(outcome) == parsed_json(text@),
{
    serde_json::from_str::<Value>(text).map_err(|err| err.to_string())
}

/// `serde_json::to_string` on a `Value`: writes it as compact JSON, which does not fail, since a
/// value's names are strings. The outcome depends on what the value says alone, and
/// [`printed_json`] names it. How the text is laid out is not said here, but that it reads back:
/// parsing what was printed gives the value again, where its numbers are integers and its lists and
/// objects are nested no deeper than the parser goes, 127 levels.
#[verifier::external_body]
pub(crate) fn value_to_string(value: &Value) -> (outcome: Result<String, String>)
    ensures
        outcome is Ok,
        write_outcome(outcome) == printed_json(json_tree(*value)),
        plain_within(json_tree(*value), 127) ==> reads_as(outcome->Ok_0@, json_tree(*value)),
{
    serde_json::to_string(value).map_err(|err| err.to_string())
}

} // verus!
