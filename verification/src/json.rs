//! JSON objects as the wire format reads and writes them, with the calls into
//! `serde_json` that parse and render them.

use vstd::prelude::*;

verus! {

/// Mathematical value of a [`JsonField`].
pub enum JsonFieldView {
    Number(Option<int>),
    Text(Seq<char>),
    Other,
}

/// The value of one field of a JSON object, as far as the wire format looks
/// at it: a number, a string, or anything else. A number carries its value
/// where that is an integer from 0 to `u64::MAX`.
#[derive(Debug, PartialEq, Eq)]
pub enum JsonField {
    Number(Option<u64>),
    Text(String),
    Other,
}

impl View for JsonField {
    type V = JsonFieldView;

    open spec fn view(&self) -> JsonFieldView {
        match self {
            JsonField::Number(Some(n)) => JsonFieldView::Number(Some(*n as int)),
            JsonField::Number(None) => JsonFieldView::Number(None),
            JsonField::Text(s) => JsonFieldView::Text(s@),
            JsonField::Other => JsonFieldView::Other,
        }
    }
}

/// Mathematical value of a [`JsonEntry`].
pub struct JsonEntryView {
    pub key: Seq<char>,
    pub field: JsonFieldView,
}

/// One `key: value` pair of a JSON object.
#[derive(Debug, PartialEq, Eq)]
pub struct JsonEntry {
    pub key: String,
    pub field: JsonField,
}

impl View for JsonEntry {
    type V = JsonEntryView;

    open spec fn view(&self) -> JsonEntryView {
        JsonEntryView { key: self.key@, field: self.field@ }
    }
}

/// The views of a sequence of entries, in the same order.
pub open spec fn entry_views(entries: Seq<JsonEntry>) -> Seq<JsonEntryView> {
    entries.map_values(|e: JsonEntry| e@)
}

/// The entries that `serde_json` reads out of `text`, or `None` where it does
/// not accept `text` as one JSON object.
pub uninterp spec fn parsed_object(text: Seq<char>) -> Option<Seq<JsonEntryView>>;

/// The text that `serde_json` writes for the object with these entries.
pub uninterp spec fn rendered_object(entries: Seq<JsonEntryView>) -> Option<Seq<char>>;

/// Parses `text` with `serde_json::from_str` as a `serde_json::Map`, and hands
/// out its entries in the map's order. Each value is taken over by its
/// variant: a number with what `Number::as_u64` says of it, a string as it
/// is, all else as `Other`.
///
/// Nothing is claimed of the result but that it depends on `text` alone.
#[verifier::external_body]
pub(crate) fn parse_object(text: &str) -> (r: Option<Vec<JsonEntry>>)
    ensures
        match r {
            Some(entries) => parsed_object(text@) == Some(entry_views(entries@)),
            None => parsed_object(text@) is None,
        },
{
    let object: serde_json::Map<String, serde_json::Value> = serde_json::from_str(text).ok()?;
    let entries = object.into_iter().map(|(key, value)| {
        let field = match value {
            serde_json::Value::Number(n) => JsonField::Number(n.as_u64()),
            serde_json::Value::String(s) => JsonField::Text(s),
            _ => JsonField::Other,
        };
        JsonEntry { key, field }
    });
    Some(entries.collect())
}

/// Collects the entries into a `serde_json::Map` and renders it with
/// `serde_json::to_string`. A number without a value and an `Other` field go
/// in as `null`.
///
/// Nothing is claimed of the result but that it depends on the entries alone.
#[verifier::external_body]
pub(crate) fn render_object(entries: &Vec<JsonEntry>) -> (r: Option<String>)
    ensures
        match r {
            Some(text) => rendered_object(entry_views(entries@)) == Some(text@),
            None => rendered_object(entry_views(entries@)) is None,
        },
{
    let pairs = entries.iter().map(|entry| {
        let value = match &entry.field {
            JsonField::Number(Some(n)) => serde_json::Value::from(*n),
            JsonField::Text(s) => serde_json::Value::from(s.clone()),
            JsonField::Number(None) | JsonField::Other => serde_json::Value::Null,
        };
        (entry.key.clone(), value)
    });
    let object: serde_json::Map<String, serde_json::Value> = pairs.collect();
    serde_json::to_string(&object).ok()
}

} // verus!
