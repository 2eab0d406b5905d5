use vstd::prelude::*;

verus! {

#[verifier::external_type_specification]
#[verifier::external_body]
pub struct ExValue(serde_json::Value);

/// Relies on `Clone` for `serde_json::Value`, which the crate derives: the copy
/// is the same document.
pub assume_specification[ <serde_json::Value as Clone>::clone ](v: &serde_json::Value) -> (r: serde_json::Value)
    ensures
        r == *v,
;

/// The document that `serde_json::from_str` reads from the text, if it reads one.
pub uninterp spec fn parsed_json(text: Seq<char>) -> Option<serde_json::Value>;

/// The member of a JSON object under `key`; none for a missing key or a value
/// that is not an object.
pub uninterp spec fn json_member(doc: serde_json::Value, key: Seq<char>) -> Option<serde_json::Value>;

/// The text of a JSON string; none for any other kind of value.
pub uninterp spec fn json_text(doc: serde_json::Value) -> Option<Seq<char>>;

/// Relies on `serde_json::from_str` to read one JSON document from the text;
/// the outcome depends on the text alone.
#[verifier::external_body]
pub(crate) fn parse_json(text: &str) -> (r: Option<serde_json::Value>)
    ensures
        r == parsed_json(text@),
{
    serde_json::from_str::<serde_json::Value>(text).ok()
}

/// Relies on `serde_json::Value::get` with a string key: the member of an
/// object under that key, here copied out.
#[verifier::external_body]
pub(crate) fn member(doc: &serde_json::Value, key: &str) -> (r: Option<serde_json::Value>)
    ensures
        r == json_member(*doc, key@),
{
    doc.get(key).cloned()
}

/// Relies on `serde_json::Value::as_str`: the text of a JSON string.
#[verifier::external_body]
pub(crate) fn text_value(doc: &serde_json::Value) -> (r: Option<String>)
    ensures
        match r {
            Some(t) => json_text(*doc) == Some(t@),
            None => json_text(*doc) is None,
        },
{
    doc.as_str().map(|t| t.to_string())
}

/// The text under `key` when that member is a JSON string.
pub open spec fn text_member(doc: serde_json::Value, key: Seq<char>) -> Option<Seq<char>> {
    match json_member(doc, key) {
        Some(m) => json_text(m),
        None => None,
    }
}

/// The text under `key` when that member is a JSON string.
pub fn get_text(doc: &serde_json::Value, key: &str) -> (r: Option<String>)
    ensures
        match r {
            Some(t) => text_member(*doc, key@) == Some(t@),
            None => text_member(*doc, key@) is None,
        },
{
    match member(doc, key) {
        Some(m) => text_value(&m),
        None => None,
    }
}

/// The JSON string that `serde_json::Value::String` makes of the text.
pub uninterp spec fn string_doc(t: Seq<char>) -> serde_json::Value;

/// Relies on `serde_json::Value::String`: a JSON string holding the text.
#[verifier::external_body]
pub(crate) fn json_string(t: &str) -> (r: serde_json::Value)
    ensures
        r == string_doc(t@),
        json_text(r) == Some(t@),
        forall|k: Seq<char>| json_member(r, k) is None,
{
    serde_json::Value::String(t.to_string())
}

/// The JSON object that `serde_json::Value::Object` makes of the pairs
/// collected into a map.
pub uninterp spec fn object_doc(members: Seq<(Seq<char>, serde_json::Value)>) -> serde_json::Value;

/// Relies on `serde_json::Value::Object` collected from pairs: with distinct
/// keys, each key holds its value and no other key is present; the object
/// depends on the pairs alone.
#[verifier::external_body]
pub(crate) fn json_object(members: Vec<(String, serde_json::Value)>) -> (r: serde_json::Value)
    requires
        forall|i: int, j: int|
            0 <= i < members@.len() && 0 <= j < members@.len() && i != j ==> #[trigger] members@[i].0@
                != #[trigger] members@[j].0@,
    ensures
        r == object_doc(members@.map_values(|m: (String, serde_json::Value)| (m.0@, m.1))),
        json_text(r) is None,
        forall|i: int| 0 <= i < members@.len() ==> json_member(r, (#[trigger] members@[i]).0@) == Some(members@[i].1),
        forall|k: Seq<char>| (forall|i: int| 0 <= i < members@.len() ==> (#[trigger] members@[i]).0@ != k)
            ==> json_member(r, k) is None,
{
    serde_json::Value::Object(members.into_iter().collect())
}

/// The items of a JSON array, in order; empty for any other kind of value.
pub uninterp spec fn json_items(doc: serde_json::Value) -> Seq<serde_json::Value>;

/// The JSON array that `serde_json::Value::Array` makes of the items.
pub uninterp spec fn array_doc(items: Seq<serde_json::Value>) -> serde_json::Value;

/// Relies on `serde_json::Value::Array`: a JSON array of the items, in order.
#[verifier::external_body]
pub(crate) fn json_array(items: Vec<serde_json::Value>) -> (r: serde_json::Value)
    ensures
        r == array_doc(items@),
        json_items(r) == items@,
        json_text(r) is None,
        forall|k: Seq<char>| json_member(r, k) is None,
{
    serde_json::Value::Array(items)
}

/// The text that `serde_json::to_string_pretty` writes for a document.
pub uninterp spec fn pretty_text(doc: serde_json::Value) -> Seq<char>;

/// Relies on `serde_json::to_string_pretty`, which writes a `Value` without
/// failing; the text depends on the document alone.
#[verifier::external_body]
pub(crate) fn pretty_json(doc: &serde_json::Value) -> (r: String)
    ensures
        r@ == pretty_text(*doc),
{
    serde_json::to_string_pretty(doc).unwrap_or_default()
}

} // verus!
