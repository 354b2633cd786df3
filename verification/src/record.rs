//! The canonical node record and its mathematical view.

use vstd::prelude::*;

verus! {

/// A node in canonical form, as the table holds it.
#[derive(Clone, Debug, PartialEq, Eq)]
pub struct NodeRecord {
    /// The key of the record: unique, and never changed once a row exists.
    pub identity: String,
    pub display_name: String,
    /// Number of channels; not negative in a well-formed listing.
    pub channel_count: i64,
    /// Capacity in the smallest currency unit.
    pub capacity: i64,
    /// Epoch seconds at which the listing first observed the node.
    pub first_seen: i64,
    /// Epoch seconds of the last change: decides which of two records is fresher.
    pub last_updated: i64,
    /// Canonical JSON text, or nothing recorded.
    pub city: Option<String>,
    /// Canonical JSON text, or nothing recorded.
    pub country: Option<String>,
    /// Canonical JSON text, or nothing recorded.
    pub subdivision: Option<String>,
    pub iso_code: Option<String>,
}

/// What a `NodeRecord` is to the contracts: its texts as sequences of characters.
pub ghost struct NodeRecordView {
    pub identity: Seq<char>,
    pub display_name: Seq<char>,
    pub channel_count: i64,
    pub capacity: i64,
    pub first_seen: i64,
    pub last_updated: i64,
    pub city: Option<Seq<char>>,
    pub country: Option<Seq<char>>,
    pub subdivision: Option<Seq<char>>,
    pub iso_code: Option<Seq<char>>,
}

/// The characters of an optional text.
pub open spec fn text_view(text: Option<String>) -> Option<Seq<char>> {
    match text {
        Some(s) => Some(s@),
        None => None,
    }
}

impl View for NodeRecord {
    type V = NodeRecordView;

    open spec fn view(&self) -> NodeRecordView {
        NodeRecordView {
            identity: self.identity@,
            display_name: self.display_name@,
            channel_count: self.channel_count,
            capacity: self.capacity,
            first_seen: self.first_seen,
            last_updated: self.last_updated,
            city: text_view(self.city),
            country: text_view(self.country),
            subdivision: text_view(self.subdivision),
            iso_code: text_view(self.iso_code),
        }
    }
}

} // verus!
