//! JSON documents, as the sidecar files hold them: a mathematical model of
//! a document, and the calls into `serde_json` that read, build, parse and
//! write one.

use vstd::prelude::*;
use crate::text::opt_text;

verus! {

/// A JSON document as a mathematical value.
#[verifier::ext_equal]
pub enum JsonView {
    Null,
    Bool(bool),
    /// A whole number from 0 up to 2^64 - 1.
    Number(u64),
    /// Any other number, as the text that writes it.
    Decimal(Seq<char>),
    Text(Seq<char>),
    Array(Seq<JsonView>),
    /// The members of an object, in the order of the document; no two
    /// members of a document share a name.
    Object(Seq<(Seq<char>, JsonView)>),
}

/// The value of the first member called `key`, if there is one.
pub open spec fn member(members: Seq<(Seq<char>, JsonView)>, key: Seq<char>) -> Option<JsonView>
    decreases members.len(),
{
    if members.len() == 0 {
        None
    } else if members[0].0 == key {
        Some(members[0].1)
    } else {
        member(members.drop_first(), key)
    }
}

/// Whether no two members share a name.
pub open spec fn distinct_names(members: Seq<(Seq<char>, JsonView)>) -> bool {
    forall|i: int, j: int|
        0 <= i < j < members.len() ==> (#[trigger] members[i]).0 != (#[trigger] members[j]).0
}

/// A document of `serde_json`.
#[verifier::external_type_specification]
#[verifier::external_body]
pub struct ExValue(serde_json::Value);

/// What a document of `serde_json` holds.
pub uninterp spec fn json_of(value: serde_json::Value) -> JsonView;

/// The document that a text holds, if the text is a JSON document.
pub uninterp spec fn parsed_json(text: Seq<char>) -> Option<JsonView>;

/// The text that writes a document, indented for reading.
pub uninterp spec fn pretty_json(doc: JsonView) -> Seq<char>;

/// What each document of a list holds.
pub open spec fn items_of(items: Seq<serde_json::Value>) -> Seq<JsonView> {
    Seq::new(items.len(), |i: int| json_of(items[i]))
}

/// The members that a list of named documents makes up.
pub open spec fn members_of(members: Seq<(String, serde_json::Value)>) -> Seq<(Seq<char>, JsonView)> {
    Seq::new(members.len(), |i: int| (members[i].0@, json_of(members[i].1)))
}

/// Reads a JSON document from its text.
///
/// Trusted: `serde_json::from_str` parses the whole text as one JSON
/// document and fails on anything else; the result depends on the text
/// alone.
#[verifier::external_body]
pub(crate) fn parse_json(text: &str) -> (doc: Option<serde_json::Value>)
    ensures
        match doc {
            Some(d) => parsed_json(text@) == Some(json_of(d)),
            None => parsed_json(text@) is None,
        },
{
    serde_json::from_str::<serde_json::Value>(text).ok()
}

/// Writes a document as indented JSON text.
///
/// Trusted: `serde_json::to_string_pretty` writes the document with its
/// object members in their order, two spaces of indentation a level; the
/// text depends on the document alone.
#[verifier::external_body]
pub(crate) fn render_json(doc: &serde_json::Value) -> (text: String)
    ensures
        text@ == pretty_json(json_of(*doc)),
{
    serde_json::to_string_pretty(doc).unwrap_or_default()
}

/// Whether a document is an object.
///
/// Trusted: `Value::is_object` tells an object from every other document.
#[verifier::external_body]
pub(crate) fn is_object(doc: &serde_json::Value) -> (yes: bool)
    ensures
        yes == json_of(*doc) is Object,
{
    doc.is_object()
}

/// Whether a document is `null`.
///
/// Trusted: `Value::is_null` tells `null` from every other document.
#[verifier::external_body]
pub(crate) fn is_null(doc: &serde_json::Value) -> (yes: bool)
    ensures
        yes == json_of(*doc) is Null,
{
    doc.is_null()
}

/// The member of an object that is called `key`.
///
/// Trusted: `Value::get` with a string gives the member of that name of an
/// object, and nothing for an object without it or for another document.
#[verifier::external_body]
pub(crate) fn member_of<'a>(doc: &'a serde_json::Value, key: &str) -> (found: Option<
    &'a serde_json::Value,
>)
    ensures
        match found {
            Some(value) => json_of(*doc) is Object && member(json_of(*doc)->Object_0, key@) == Some(
                json_of(*value),
            ),
            None => !(json_of(*doc) is Object) || member(json_of(*doc)->Object_0, key@) is None,
        },
{
    doc.get(key)
}

/// How many items an array has.
///
/// Trusted: `Value::as_array` gives the items of an array, and nothing for
/// another document.
#[verifier::external_body]
pub(crate) fn array_len(doc: &serde_json::Value) -> (len: Option<usize>)
    ensures
        match len {
            Some(n) => json_of(*doc) is Array && json_of(*doc)->Array_0.len() == n,
            None => !(json_of(*doc) is Array),
        },
{
    doc.as_array().map(|items| items.len())
}

/// The item of an array at `index`.
///
/// Trusted: `Value::get` with a number gives the item of an array at that
/// place, and nothing past the end or for another document.
#[verifier::external_body]
pub(crate) fn item_of<'a>(doc: &'a serde_json::Value, index: usize) -> (found: Option<
    &'a serde_json::Value,
>)
    ensures
        match found {
            Some(value) => json_of(*doc) is Array && index < json_of(*doc)->Array_0.len() && json_of(
                *value,
            ) == json_of(*doc)->Array_0[index as int],
            None => !(json_of(*doc) is Array) || index >= json_of(*doc)->Array_0.len(),
        },
{
    doc.get(index)
}

/// The text of a string.
///
/// Trusted: `Value::as_str` gives the text of a string, and nothing for
/// another document.
#[verifier::external_body]
pub(crate) fn text_of(doc: &serde_json::Value) -> (text: Option<String>)
    ensures
        match text {
            Some(t) => json_of(*doc) == JsonView::Text(t@),
            None => !(json_of(*doc) is Text),
        },
{
    doc.as_str().map(|t| t.to_owned())
}

/// The value of a whole number from 0 up to 2^64 - 1.
///
/// Trusted: `Value::as_u64` gives the value of a number that is such a
/// whole number, and nothing for any other number or document.
#[verifier::external_body]
pub(crate) fn number_of(doc: &serde_json::Value) -> (number: Option<u64>)
    ensures
        match number {
            Some(n) => json_of(*doc) == JsonView::Number(n),
            None => !(json_of(*doc) is Number),
        },
{
    doc.as_u64()
}

/// The document `null`.
///
/// Trusted: `serde_json::Value::Null` is the document `null`.
#[verifier::external_body]
pub(crate) fn null_value() -> (doc: serde_json::Value)
    ensures
        json_of(doc) == JsonView::Null,
{
    serde_json::Value::Null
}

/// A string as a document.
///
/// Trusted: `serde_json::Value::String` holds the text that it is given.
#[verifier::external_body]
pub(crate) fn text_value(text: &str) -> (doc: serde_json::Value)
    ensures
        json_of(doc) == JsonView::Text(text@),
{
    serde_json::Value::String(text.to_owned())
}

/// A whole number as a document.
///
/// Trusted: `serde_json::Value::from` keeps the number as the whole number
/// it is.
#[verifier::external_body]
pub(crate) fn number_value(number: u64) -> (doc: serde_json::Value)
    ensures
        json_of(doc) == JsonView::Number(number),
{
    serde_json::Value::from(number)
}

/// A list of documents as an array.
///
/// Trusted: `serde_json::Value::Array` holds the items that it is given, in
/// their order.
#[verifier::external_body]
pub(crate) fn array_value(items: Vec<serde_json::Value>) -> (doc: serde_json::Value)
    ensures
        json_of(doc) == JsonView::Array(items_of(items@)),
{
    serde_json::Value::Array(items)
}

/// A list of named documents as an object.
///
/// Trusted: `serde_json::Map` is collected member by member and, built to
/// preserve order, keeps the members in the order in which they came; where
/// two members share a name nothing is claimed.
#[verifier::external_body]
pub(crate) fn object_value(members: Vec<(String, serde_json::Value)>) -> (doc: serde_json::Value)
    ensures
        distinct_names(members_of(members@)) ==> json_of(doc) == JsonView::Object(members_of(members@)),
{
    serde_json::Value::Object(members.into_iter().collect())
}

} // verus!
