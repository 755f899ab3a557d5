//! JSON values: the calls into `serde_json` that the engine makes, each with
//! the contract that the rest of the crate relies on.
use serde_json::Map as JsonMap;
use serde_json::Value;
use vstd::prelude::*;
use vstd::string::*;

verus! {

#[verifier::external_type_specification]
#[verifier::external_body]
pub struct ExJsonValue(serde_json::Value);

#[verifier::external_type_specification]
#[verifier::external_body]
#[verifier::reject_recursive_types(K)]
#[verifier::reject_recursive_types(V)]
pub struct ExJsonMap<K, V>(serde_json::Map<K, V>);

/// The outermost layer of a JSON value.
pub enum JsonNode {
    Null,
    Bool(bool),
    /// A number that is held as an integer.
    Int(int),
    /// Any other number.
    OtherNumber,
    Text(Seq<char>),
    Array(Seq<Value>),
    Object(Map<Seq<char>, Value>),
}

/// What a JSON value holds: its kind, and its items or entries one level down.
pub uninterp spec fn node(value: Value) -> JsonNode;

/// The entries of a JSON object.
pub uninterp spec fn entries(map: JsonMap<String, Value>) -> Map<Seq<char>, Value>;

/// The text that `serde_json::to_string` writes for a value.
pub uninterp spec fn text(value: Value) -> Seq<char>;

/// Whether `serde_json` compares two values as equal.
pub uninterp spec fn equal(a: Value, b: Value) -> bool;

/// The entries of the object without entries.
pub open spec fn no_entries() -> Map<Seq<char>, Value> {
    Map::empty()
}

/// Calls `Value::is_null`, which is true of `Value::Null` alone.
#[verifier::external_body]
pub(crate) fn is_null(value: &Value) -> (r: bool)
    ensures
        r == (node(*value) is Null),
{
    value.is_null()
}

/// Calls `Value::as_object`, which hands out the entries of an object and
/// nothing for any other kind of value.
#[verifier::external_body]
pub(crate) fn as_object(value: &Value) -> (r: Option<&JsonMap<String, Value>>)
    ensures
        match node(*value) {
            JsonNode::Object(e) => r matches Some(m) && entries(*m) == e,
            _ => r is None,
        },
{
    value.as_object()
}

/// Takes a value apart by its variant `Value::Object`: the entries of an
/// object, or the value itself when it is of another kind.
#[verifier::external_body]
pub(crate) fn into_object(value: Value) -> (r: Result<JsonMap<String, Value>, Value>)
    ensures
        match node(value) {
            JsonNode::Object(e) => r matches Ok(m) && entries(m) == e,
            _ => r matches Err(other) && other == value,
        },
{
    match value {
        Value::Object(map) => Ok(map),
        other => Err(other),
    }
}

/// Calls `Value::as_array`, which hands out the items of an array and nothing
/// for any other kind of value.
#[verifier::external_body]
pub(crate) fn as_array(value: &Value) -> (r: Option<&Vec<Value>>)
    ensures
        match node(*value) {
            JsonNode::Array(items) => r matches Some(v) && v@ == items,
            _ => r is None,
        },
{
    value.as_array()
}

/// Calls `Value::as_str`, which hands out the text of a string and nothing for
/// any other kind of value.
#[verifier::external_body]
pub(crate) fn as_str(value: &Value) -> (r: Option<&str>)
    ensures
        match node(*value) {
            JsonNode::Text(text) => r matches Some(s) && s@ == text,
            _ => r is None,
        },
{
    value.as_str()
}

/// Builds `Value::Null`.
#[verifier::external_body]
pub(crate) fn null() -> (r: Value)
    ensures
        node(r) == JsonNode::Null,
{
    Value::Null
}

/// Builds `Value::Bool`.
#[verifier::external_body]
pub(crate) fn bool_value(b: bool) -> (r: Value)
    ensures
        node(r) == JsonNode::Bool(b),
{
    Value::Bool(b)
}

/// Calls `Value::from` on an `i64`, which holds the integer as it is.
#[verifier::external_body]
pub(crate) fn int_value(n: i64) -> (r: Value)
    ensures
        node(r) == JsonNode::Int(n as int),
{
    Value::from(n)
}

/// Builds `Value::String`.
#[verifier::external_body]
pub(crate) fn string_value(text: String) -> (r: Value)
    ensures
        node(r) == JsonNode::Text(text@),
{
    Value::String(text)
}

/// Builds `Value::Array`.
#[verifier::external_body]
pub(crate) fn array_value(items: Vec<Value>) -> (r: Value)
    ensures
        node(r) == JsonNode::Array(items@),
{
    Value::Array(items)
}

/// Builds `Value::Object`.
#[verifier::external_body]
pub(crate) fn object_value(map: JsonMap<String, Value>) -> (r: Value)
    ensures
        node(r) == JsonNode::Object(entries(map)),
{
    Value::Object(map)
}

/// Calls `Map::new`, which makes a map without entries.
#[verifier::external_body]
pub(crate) fn map_new() -> (r: JsonMap<String, Value>)
    ensures
        entries(r) == no_entries(),
{
    JsonMap::new()
}

/// Calls `Map::insert`, which sets the entry of a key and leaves the others.
#[verifier::external_body]
pub(crate) fn map_insert(map: &mut JsonMap<String, Value>, key: String, value: Value)
    ensures
        entries(*final(map)) == entries(*old(map)).insert(key@, value),
{
    map.insert(key, value);
}

/// Calls `Map::get`, which hands out the entry of a key.
#[verifier::external_body]
pub(crate) fn map_get<'a>(map: &'a JsonMap<String, Value>, key: &str) -> (r: Option<&'a Value>)
    ensures
        match r {
            Some(v) => entries(*map).dom().contains(key@) && *v == entries(*map)[key@],
            None => !entries(*map).dom().contains(key@),
        },
{
    map.get(key)
}

/// Calls `Map::is_empty`.
#[verifier::external_body]
pub(crate) fn map_is_empty(map: &JsonMap<String, Value>) -> (r: bool)
    ensures
        r == (entries(*map) == no_entries()),
{
    map.is_empty()
}

/// Calls `Map::keys` and collects what it walks over: every key of the map,
/// and nothing else. The order is left open.
#[verifier::external_body]
pub(crate) fn map_keys(map: &JsonMap<String, Value>) -> (r: Vec<String>)
    ensures
        forall|key: Seq<char>|
            #![trigger entries(*map).dom().contains(key)]
            entries(*map).dom().contains(key) <==> exists|i: int|
                0 <= i < r@.len() && (#[trigger] r@[i])@ == key,
{
    map.keys().cloned().collect()
}

/// `Value::clone` gives the same value.
pub assume_specification[ <Value as Clone>::clone ](value: &Value) -> (r: Value)
    ensures
        r == *value,
;

/// Compares two values with `==`. A value equals itself: its numbers are finite.
#[verifier::external_body]
pub(crate) fn eq_value(a: &Value, b: &Value) -> (r: bool)
    ensures
        r == equal(*a, *b),
        *a == *b ==> r,
{
    a == b
}

/// Calls `serde_json::to_string`, which cannot fail on a `Value`: its keys are
/// strings and its numbers are finite.
#[verifier::external_body]
pub(crate) fn to_text(value: &Value) -> (r: String)
    ensures
        r@ == text(*value),
{
    serde_json::to_string(value).expect("JSON serialization should not fail")
}

/// The value is the object without entries.
pub open spec fn is_empty_object(value: Value) -> bool {
    node(value) == JsonNode::Object(no_entries())
}

/// Whether `value` is the object without entries.
pub fn is_empty_json_object(value: &Value) -> (r: bool)
    ensures
        r == is_empty_object(*value),
{
    match as_object(value) {
        Some(map) => map_is_empty(map),
        None => false,
    }
}

/// The object without entries.
pub fn empty_object() -> (r: Value)
    ensures
        is_empty_object(r),
{
    object_value(map_new())
}

/// Clones an optional value.
pub fn clone_opt(value: &Option<Value>) -> (r: Option<Value>)
    ensures
        r == *value,
{
    match value {
        Some(v) => Some(v.clone()),
        None => None,
    }
}

/// Clones a list of values item by item.
pub fn clone_items(items: &Vec<Value>) -> (r: Vec<Value>)
    ensures
        r@ == items@,
{
    let mut out: Vec<Value> = Vec::new();
    let mut i: usize = 0;
    while i < items.len()
        invariant
            i <= items.len(),
            out@ == items@.subrange(0, i as int),
        decreases items.len() - i,
    {
        out.push(items[i].clone());
        i = i + 1;
        assert(items@.subrange(0, i as int) =~= items@.subrange(0, i as int - 1).push(items@[i - 1]));
    }
    assert(items@.subrange(0, items@.len() as int) =~= items@);
    out
}

} // verus!
