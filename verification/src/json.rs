//! JSON documents as plain values, and the parser that produces them.

use vstd::prelude::*;

verus! {

/// A JSON document held as plain values.
///
/// A number is kept only as far as the dispatch layer reads it: as a
/// non-negative integer below 2^64, or as `None` for any other number.
/// The members of an object come in the order the parser hands them out.
#[derive(Debug)]
pub enum Json {
    Null,
    Bool(bool),
    Number(Option<u64>),
    Text(String),
    Array(Vec<Json>),
    Object(Vec<(String, Json)>),
}

/// The mathematical value of a [`Json`] document.
pub ghost enum JsonView {
    Null,
    Bool(bool),
    Number(Option<u64>),
    Text(Seq<char>),
    Array(Seq<JsonView>),
    Object(Seq<(Seq<char>, JsonView)>),
}

/// The value of a document, by recursion on its structure.
pub open spec fn json_view(doc: Json) -> JsonView
    decreases doc,
{
    match doc {
        Json::Null => JsonView::Null,
        Json::Bool(b) => JsonView::Bool(b),
        Json::Number(n) => JsonView::Number(n),
        Json::Text(s) => JsonView::Text(s@),
        Json::Array(items) => JsonView::Array(
            Seq::new(
                items@.len(),
                |i: int|
                    if 0 <= i < items@.len() {
                        proof {
                            vstd::std_specs::vec::axiom_vec_index_decreases(items, i);
                        }
                        json_view(items@[i])
                    } else {
                        JsonView::Null
                    },
            ),
        ),
        Json::Object(members) => JsonView::Object(
            Seq::new(
                members@.len(),
                |i: int|
                    if 0 <= i < members@.len() {
                        proof {
                            vstd::std_specs::vec::axiom_vec_index_decreases(members, i);
                        }
                        (members@[i].0@, json_view(members@[i].1))
                    } else {
                        (Seq::empty(), JsonView::Null)
                    },
            ),
        ),
    }
}

impl View for Json {
    type V = JsonView;

    open spec fn view(&self) -> JsonView {
        json_view(*self)
    }
}

/// The members of an object, each with the value of its name and document.
pub open spec fn members_view(members: Seq<(String, Json)>) -> Seq<(Seq<char>, JsonView)> {
    Seq::new(members.len(), |i: int| (members[i].0@, members[i].1@))
}

/// The elements of an array, each with its value.
pub open spec fn items_view(items: Seq<Json>) -> Seq<JsonView> {
    Seq::new(items.len(), |i: int| items[i]@)
}

/// The value of an object is the object of its members' values.
pub proof fn lemma_object_view(doc: &Json)
    requires
        doc is Object,
    ensures
        doc@ == JsonView::Object(members_view(doc->Object_0@)),
{
    let members = doc->Object_0;
    assert(doc@->Object_0 =~= members_view(members@));
}

/// The value of an array is the array of its elements' values.
pub proof fn lemma_array_view(doc: &Json)
    requires
        doc is Array,
    ensures
        doc@ == JsonView::Array(items_view(doc->Array_0@)),
{
    let items = doc->Array_0;
    assert(doc@->Array_0 =~= items_view(items@));
}

/// The error type of `serde_json`.
#[verifier::external_type_specification]
#[verifier::external_body]
pub struct ExJsonError(serde_json::Error);

/// The document type of `serde_json`.
#[verifier::external_type_specification]
#[verifier::external_body]
pub struct ExJsonValue(serde_json::Value);

/// The document that `serde_json` reads from `text`, or `None` where it
/// rejects `text`.
pub uninterp spec fn json_document(text: Seq<char>) -> Option<JsonView>;

/// What a `serde_json::Value` holds.
pub uninterp spec fn value_view(value: serde_json::Value) -> JsonView;

/// `serde_json::from_str`, reading a `serde_json::Value`. Assumed: the outcome
/// depends on `text` alone, so what the value holds can be called
/// `json_document(text)`; an error means that there is no document.
#[verifier::external_body]
fn parse_value(text: &str) -> (r: Result<serde_json::Value, serde_json::Error>)
    ensures
        match r {
            Ok(value) => json_document(text@) == Some(value_view(value)),
            Err(_) => json_document(text@) is None,
        },
{
    serde_json::from_str::<serde_json::Value>(text)
}

/// Moves a `serde_json::Value` into a [`Json`], variant by variant. A number
/// becomes what `serde_json::Number::as_u64` says of it; the members of an
/// object keep the order in which `serde_json::Map` iterates. Assumed: the
/// result holds what the value held.
#[verifier::external_body]
fn json_of_value(value: serde_json::Value) -> (doc: Json)
    ensures
        doc@ == value_view(value),
{
    match value {
        serde_json::Value::Null => Json::Null,
        serde_json::Value::Bool(b) => Json::Bool(b),
        serde_json::Value::Number(n) => Json::Number(n.as_u64()),
        serde_json::Value::String(s) => Json::Text(s),
        serde_json::Value::Array(items) => Json::Array(
            items.into_iter().map(json_of_value).collect(),
        ),
        serde_json::Value::Object(members) => Json::Object(
            members.into_iter().map(|(k, v)| (k, json_of_value(v))).collect(),
        ),
    }
}

/// The `Debug` rendering of a `serde_json::Error`: its message with the line
/// and column at which parsing stopped. Nothing is assumed of the text.
#[verifier::external_body]
fn describe(error: &serde_json::Error) -> String {
    format!("{:?}", error)
}

/// Parses `text` as one JSON document. On failure the parser's own account
/// of what went wrong is returned.
pub fn parse(text: &str) -> (r: Result<Json, String>)
    ensures
        match r {
            Ok(doc) => json_document(text@) == Some(doc@),
            Err(_) => json_document(text@) is None,
        },
{
    match parse_value(text) {
        Ok(value) => Ok(json_of_value(value)),
        Err(error) => Err(describe(&error)),
    }
}

} // verus!
