//! Bringing a raw listing item into canonical form.
//!
//! The three geographic fields of an item arrive as free-form JSON: missing,
//! `null`, a string, or a structured value. Each is recorded either as
//! canonical JSON text or as nothing. A structured value comes with its
//! encoding, which is recorded as it is. A string that itself holds JSON is
//! parsed and encoded again, so that a payload that was already serialized is
//! not encoded twice; any other string is recorded as a JSON string.

use vstd::prelude::*;
use crate::record::{NodeRecord, NodeRecordView, text_view};

verus! {

/// A geographic field of a raw item, when it is present.
#[derive(Clone, Debug, PartialEq, Eq)]
pub enum RawGeo {
    /// JSON `null`.
    Null,
    /// A JSON string, held by its content.
    Text(String),
    /// An object, an array, a number or a boolean, held by its compact JSON
    /// encoding, as whoever decoded the listing wrote it out. The text is
    /// taken for that encoding and is not looked into.
    Structured(String),
}

/// The view of a `RawGeo`.
pub ghost enum RawGeoView {
    Null,
    Text(Seq<char>),
    Structured(Seq<char>),
}

impl View for RawGeo {
    type V = RawGeoView;

    open spec fn view(&self) -> RawGeoView {
        match self {
            RawGeo::Null => RawGeoView::Null,
            RawGeo::Text(s) => RawGeoView::Text(s@),
            RawGeo::Structured(s) => RawGeoView::Structured(s@),
        }
    }
}

/// The view of a geographic field that may be missing.
pub open spec fn geo_view(value: Option<RawGeo>) -> Option<RawGeoView> {
    match value {
        Some(g) => Some(g@),
        None => None,
    }
}

/// The compact JSON encoding of the value that `text` parses to, or `None`
/// where `text` is not one well-formed JSON value.
pub uninterp spec fn json_reencoded(text: Seq<char>) -> Option<Seq<char>>;

/// The digit for `n` in base sixteen, in lower case.
pub open spec fn hex_digit(n: int) -> char {
    seq!['0', '1', '2', '3', '4', '5', '6', '7', '8', '9', 'a', 'b', 'c', 'd', 'e', 'f'][n]
}

/// How a character stands inside a JSON string: the quote, the backslash and
/// the control characters below U+0020 are escaped, every other character
/// stands for itself.
pub open spec fn json_escaped(c: char) -> Seq<char> {
    if c == '"' {
        seq!['\\', '"']
    } else if c == '\\' {
        seq!['\\', '\\']
    } else if c == '\u{8}' {
        seq!['\\', 'b']
    } else if c == '\t' {
        seq!['\\', 't']
    } else if c == '\n' {
        seq!['\\', 'n']
    } else if c == '\u{c}' {
        seq!['\\', 'f']
    } else if c == '\r' {
        seq!['\\', 'r']
    } else if (c as u32) < 0x20 {
        seq!['\\', 'u', '0', '0', hex_digit((c as u32) as int / 16), hex_digit((c as u32) as int % 16)]
    } else {
        seq![c]
    }
}

/// The characters of `text`, each as it stands inside a JSON string.
pub open spec fn json_escaped_text(text: Seq<char>) -> Seq<char>
    decreases text.len(),
{
    if text.len() == 0 {
        Seq::empty()
    } else {
        json_escaped_text(text.drop_last()) + json_escaped(text.last())
    }
}

/// The compact JSON encoding of the string whose content is `text`: the
/// escaped characters between two quotes.
pub open spec fn json_quoted(text: Seq<char>) -> Seq<char> {
    seq!['"'] + json_escaped_text(text) + seq!['"']
}

/// Calls `serde_json::from_str` for a `serde_json::Value` and, where that
/// succeeds, writes the value out with `to_string`. The contract gives that
/// outcome the name `json_reencoded`: it claims that the outcome depends on
/// `text` alone, and nothing of what the encoding looks like.
#[verifier::external_body]
fn reencode_json(text: &str) -> (encoded: Option<String>)
    ensures
        text_view(encoded) == json_reencoded(text@),
{
    match serde_json::from_str::<serde_json::Value>(text) {
        Ok(parsed) => Some(parsed.to_string()),
        Err(_) => None,
    }
}

/// Writes out `serde_json::Value::String` of `text` with `to_string`. The
/// contract claims that the result is `json_quoted` of `text`: a quote, the
/// characters of `text` with the quote, the backslash and the control
/// characters escaped as `serde_json` escapes them, and a quote.
#[verifier::external_body]
fn quote_json(text: &str) -> (encoded: String)
    ensures
        encoded@ == json_quoted(text@),
{
    serde_json::Value::String(text.to_owned()).to_string()
}

/// The canonical text for `text`: the encoding of the JSON value that it
/// parses to, or, where it is no JSON, `text` itself as a JSON string.
pub open spec fn canonical_text(text: Seq<char>) -> Seq<char> {
    match json_reencoded(text) {
        Some(encoded) => encoded,
        None => json_quoted(text),
    }
}

/// What is recorded for a geographic field: nothing where it is missing or
/// `null`, the canonical text of a string, the encoding of a structured
/// value as it is.
pub open spec fn normalized_geo(value: Option<RawGeoView>) -> Option<Seq<char>> {
    match value {
        None => None,
        Some(RawGeoView::Null) => None,
        Some(RawGeoView::Text(s)) => Some(canonical_text(s)),
        Some(RawGeoView::Structured(s)) => Some(s),
    }
}

/// The canonical text for `text`, given what parsing and encoding it again
/// gave: that encoding where there is one, else `text` written as a JSON string.
pub fn canonical_from(text: String, reencoded: Option<String>) -> (out: String)
    ensures
        out@ == match reencoded {
            Some(encoded) => encoded@,
            None => json_quoted(text@),
        },
{
    match reencoded {
        Some(encoded) => encoded,
        None => quote_json(text.as_str()),
    }
}

/// Canonical JSON text for a geographic field, or `None` where the field is
/// missing or `null`. It is defined on every input: it cannot fail.
pub fn to_json_text(value: Option<RawGeo>) -> (text: Option<String>)
    ensures
        text_view(text) == normalized_geo(geo_view(value)),
{
    match value {
        None => None,
        Some(RawGeo::Null) => None,
        Some(RawGeo::Text(s)) => {
            let reencoded = reencode_json(s.as_str());
            Some(canonical_from(s, reencoded))
        },
        Some(RawGeo::Structured(s)) => Some(s),
    }
}

/// Tells whether two texts are JSON-equivalent: both parse, and to values
/// that have one compact encoding. Strings that hold such texts are
/// recorded alike.
pub fn recorded_alike(a: &str, b: &str) -> (alike: bool)
    ensures
        alike <==> json_equivalent(a@, b@),
        alike ==> normalized_geo(Some(RawGeoView::Text(a@))) == normalized_geo(
            Some(RawGeoView::Text(b@)),
        ),
{
    match (reencode_json(a), reencode_json(b)) {
        (Some(first), Some(second)) => {
            let alike = first == second;
            proof {
                if alike {
                    lemma_equivalent_geo_recorded_alike(a@, b@);
                }
            }
            alike
        },
        _ => false,
    }
}

/// An item of the listing as it was decoded, before normalization.
#[derive(Clone, Debug, PartialEq, Eq)]
pub struct RawNode {
    pub public_key: String,
    pub alias: String,
    pub channels: i64,
    pub capacity: i64,
    pub first_seen: i64,
    pub updated_at: i64,
    pub city: Option<RawGeo>,
    pub country: Option<RawGeo>,
    pub iso_code: Option<String>,
    pub subdivision: Option<RawGeo>,
}

/// The view of a `RawNode`.
pub ghost struct RawNodeView {
    pub public_key: Seq<char>,
    pub alias: Seq<char>,
    pub channels: i64,
    pub capacity: i64,
    pub first_seen: i64,
    pub updated_at: i64,
    pub city: Option<RawGeoView>,
    pub country: Option<RawGeoView>,
    pub iso_code: Option<Seq<char>>,
    pub subdivision: Option<RawGeoView>,
}

impl View for RawNode {
    type V = RawNodeView;

    open spec fn view(&self) -> RawNodeView {
        RawNodeView {
            public_key: self.public_key@,
            alias: self.alias@,
            channels: self.channels,
            capacity: self.capacity,
            first_seen: self.first_seen,
            updated_at: self.updated_at,
            city: geo_view(self.city),
            country: geo_view(self.country),
            iso_code: text_view(self.iso_code),
            subdivision: geo_view(self.subdivision),
        }
    }
}

/// The record that a raw item stands for: identity, name, numbers and ISO
/// code as they came, each geographic field in canonical form.
pub open spec fn normalized(raw: RawNodeView) -> NodeRecordView {
    NodeRecordView {
        identity: raw.public_key,
        display_name: raw.alias,
        channel_count: raw.channels,
        capacity: raw.capacity,
        first_seen: raw.first_seen,
        last_updated: raw.updated_at,
        city: normalized_geo(raw.city),
        country: normalized_geo(raw.country),
        subdivision: normalized_geo(raw.subdivision),
        iso_code: raw.iso_code,
    }
}

/// Brings a raw item into canonical form. It is defined on every item.
pub fn normalize(raw: RawNode) -> (record: NodeRecord)
    ensures
        record@ == normalized(raw@),
{
    NodeRecord {
        identity: raw.public_key,
        display_name: raw.alias,
        channel_count: raw.channels,
        capacity: raw.capacity,
        first_seen: raw.first_seen,
        last_updated: raw.updated_at,
        city: to_json_text(raw.city),
        country: to_json_text(raw.country),
        subdivision: to_json_text(raw.subdivision),
        iso_code: raw.iso_code,
    }
}

/// Whether two texts parse to JSON values that have one compact encoding.
pub open spec fn json_equivalent(a: Seq<char>, b: Seq<char>) -> bool {
    json_reencoded(a) is Some && json_reencoded(a) == json_reencoded(b)
}

/// Normalization is defined on every field. Nothing is recorded exactly for
/// a field that is missing or `null`; for a string its canonical text is
/// recorded, for a structured value its encoding.
pub proof fn lemma_normalized_geo_total(value: Option<RawGeoView>)
    ensures
        normalized_geo(value) is None <==> (value is None || value == Some(RawGeoView::Null)),
        value matches Some(RawGeoView::Text(s)) ==> normalized_geo(value) == Some(
            canonical_text(s),
        ),
        value matches Some(RawGeoView::Structured(s)) ==> normalized_geo(value) == Some(s),
{
}

/// Two strings that hold JSON-equivalent texts are recorded alike, with the
/// one encoding that both parse to. A structured value that comes with that
/// encoding is recorded like them: a payload is recorded the same whether it
/// came as a value or serialized in a string.
pub proof fn lemma_equivalent_geo_recorded_alike(a: Seq<char>, b: Seq<char>)
    requires
        json_equivalent(a, b),
    ensures
        normalized_geo(Some(RawGeoView::Text(a))) == normalized_geo(Some(RawGeoView::Text(b))),
        normalized_geo(Some(RawGeoView::Text(a))) == json_reencoded(a),
        normalized_geo(Some(RawGeoView::Text(a))) == normalized_geo(
            Some(RawGeoView::Structured(json_reencoded(a)->0)),
        ),
{
}

} // verus!
