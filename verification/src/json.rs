//! JSON documents, and the outside crate that writes them.

use vstd::prelude::*;

verus! {

/// The outside type `serde_json::Value`.
#[verifier::external_type_specification]
#[verifier::external_body]
pub struct ExValue(serde_json::Value);

/// The outside type `serde_json::Map`.
#[verifier::external_type_specification]
#[verifier::external_body]
#[verifier::reject_recursive_types(K)]
#[verifier::reject_recursive_types(V)]
pub struct ExObject<K, V>(serde_json::Map<K, V>);

/// The outside type `serde_json::Error`.
#[verifier::external_type_specification]
#[verifier::external_body]
pub struct ExJsonError(serde_json::Error);

/// A JSON document.
#[verifier::ext_equal]
pub enum JsonView {
    Null,
    Bool(bool),
    Number(int),
    Text(Seq<char>),
    Array(Seq<JsonView>),
    Object(Map<Seq<char>, JsonView>),
}

/// The document that a `serde_json::Value` holds.
pub uninterp spec fn document(value: serde_json::Value) -> JsonView;

/// The members that a `serde_json::Map` holds.
pub uninterp spec fn members(object: serde_json::Map<String, serde_json::Value>) -> Map<
    Seq<char>,
    JsonView,
>;

/// No members at all.
pub open spec fn no_members() -> Map<Seq<char>, JsonView> {
    Map::empty()
}

/// The text that `serde_json::to_string` writes for a document.
pub uninterp spec fn json_text(value: JsonView) -> Seq<char>;

/// The documents of a list of values.
pub open spec fn documents(values: Seq<serde_json::Value>) -> Seq<JsonView> {
    Seq::new(values.len(), |i: int| document(values[i]))
}

/// `serde_json::Value::String`: a document that is a text.
#[verifier::external_body]
pub(crate) fn text_value(text: &str) -> (value: serde_json::Value)
    ensures
        document(value) == JsonView::Text(text@),
{
    serde_json::Value::String(text.to_owned())
}

/// `serde_json::Value::Bool`: a document that is a truth value.
#[verifier::external_body]
pub(crate) fn bool_value(flag: bool) -> (value: serde_json::Value)
    ensures
        document(value) == JsonView::Bool(flag),
{
    serde_json::Value::Bool(flag)
}

/// `serde_json::Value` from an integer: a document that is this number.
#[verifier::external_body]
pub(crate) fn number_value(number: i64) -> (value: serde_json::Value)
    ensures
        document(value) == JsonView::Number(number as int),
{
    serde_json::Value::from(number)
}

/// `serde_json::Value::Array`: a document that lists others, in order.
#[verifier::external_body]
pub(crate) fn array_value(values: Vec<serde_json::Value>) -> (value: serde_json::Value)
    ensures
        document(value) == JsonView::Array(documents(values@)),
{
    serde_json::Value::Array(values)
}

/// `serde_json::Map::new`: no members.
#[verifier::external_body]
pub(crate) fn new_object() -> (object: serde_json::Map<String, serde_json::Value>)
    ensures
        members(object) == no_members(),
{
    serde_json::Map::new()
}

/// `serde_json::Map::insert`: the member is added, in place of one with the same
/// name.
#[verifier::external_body]
pub(crate) fn put(
    object: &mut serde_json::Map<String, serde_json::Value>,
    name: &str,
    value: serde_json::Value,
)
    ensures
        members(*final(object)) == members(*old(object)).insert(name@, document(value)),
{
    object.insert(name.to_owned(), value);
}

/// `serde_json::Value::Object`: a document with the given members.
#[verifier::external_body]
pub(crate) fn object_value(object: serde_json::Map<String, serde_json::Value>) -> (value:
    serde_json::Value)
    ensures
        document(value) == JsonView::Object(members(object)),
{
    serde_json::Value::Object(object)
}

/// `serde_json::to_string` on a `serde_json::Value`: the text of a document. It
/// fails only where a `Serialize` impl chooses to or a map has keys that are no
/// texts, and a `Value` does neither. The text is a function of the document
/// alone; which one is left to the name `json_text`.
#[verifier::external_body]
pub(crate) fn write_json(value: &serde_json::Value) -> (result: Result<String, serde_json::Error>)
    ensures
        result is Ok,
        result->Ok_0@ == json_text(document(*value)),
{
    serde_json::to_string(value)
}

/// The `Display` form of `serde_json::Error`. Nothing is said of the text.
#[verifier::external_body]
pub(crate) fn describe_json_error(error: &serde_json::Error) -> (text: String)
{
    error.to_string()
}

} // verus!
