//! The JSON documents that event payloads are written in.
//!
//! Parsing is left to `serde_json`. What this crate reads of a parsed
//! document is the members of its top-level object, each as a [`Field`].

use vstd::prelude::*;

verus! {

/// One member of a JSON object, as far as an event payload can hold it.
#[derive(Debug, Clone)]
pub enum Field {
    /// There is no member of that name.
    Missing,
    /// JSON `null`.
    Null,
    /// `true` or `false`.
    Bool(bool),
    /// A number, as the bit pattern of the IEEE-754 double nearest to it.
    Number(u64),
    /// A string.
    Text(String),
    /// An array or an object.
    Other,
}

/// The mathematical value of a [`Field`].
pub enum FieldView {
    Missing,
    Null,
    Bool(bool),
    Number(u64),
    Text(Seq<char>),
    Other,
}

impl View for Field {
    type V = FieldView;

    open spec fn view(&self) -> FieldView {
        match self {
            Field::Missing => FieldView::Missing,
            Field::Null => FieldView::Null,
            Field::Bool(b) => FieldView::Bool(*b),
            Field::Number(n) => FieldView::Number(*n),
            Field::Text(s) => FieldView::Text(s@),
            Field::Other => FieldView::Other,
        }
    }
}

/// `serde_json::Value`, a parsed document. Nothing is known of what is inside
/// but through [`members`].
#[verifier::external_type_specification]
#[verifier::external_body]
pub struct ExJsonValue(serde_json::Value);

/// The members of the top-level object of a parsed document, by name. A
/// document that is not an object has none.
pub uninterp spec fn members(doc: serde_json::Value) -> Map<Seq<char>, FieldView>;

/// What parsing `text` as JSON gives: `None` where `text` is not one JSON
/// document, else the members of the document's top-level object.
pub uninterp spec fn json_members(text: Seq<char>) -> Option<Map<Seq<char>, FieldView>>;

/// The member called `key` among `m`.
pub open spec fn lookup(m: Map<Seq<char>, FieldView>, key: Seq<char>) -> FieldView {
    if m.contains_key(key) {
        m[key]
    } else {
        FieldView::Missing
    }
}

/// Calls `serde_json::from_str` for a `serde_json::Value`. Trusted: the
/// outcome depends on `text` alone, which is what naming it `json_members`
/// claims; an error is reported as `None`.
#[verifier::external_body]
pub(crate) fn parse_document(text: &str) -> (r: Option<serde_json::Value>)
    ensures
        match r {
            Some(doc) => json_members(text@) == Some(members(doc)),
            None => json_members(text@) is None,
        },
{
    serde_json::from_str::<serde_json::Value>(text).ok()
}

/// Calls `serde_json::Value::get` with a string index and copies the member
/// out. Trusted: `get` returns `None` unless `doc` is an object with a member
/// `key`; a number is taken through `Number::as_f64`.
#[verifier::external_body]
pub(crate) fn member(doc: &serde_json::Value, key: &str) -> (r: Field)
    ensures
        r@ == lookup(members(*doc), key@),
{
    match doc.get(key) {
        None => Field::Missing,
        Some(serde_json::Value::Null) => Field::Null,
        Some(serde_json::Value::Bool(b)) => Field::Bool(*b),
        Some(serde_json::Value::Number(n)) => match n.as_f64() {
            Some(x) => Field::Number(x.to_bits()),
            None => Field::Other,
        },
        Some(serde_json::Value::String(s)) => Field::Text(s.clone()),
        Some(_) => Field::Other,
    }
}

} // verus!
