//! The rows of a reply: nodes as a reader wants them, with the capacity in
//! bitcoin and the first sighting as a date.

use vstd::prelude::*;
use vstd::string::*;

use crate::node::{records, NodeConnectivity, NodeRecord};
use crate::units::BtcAmount;

verus! {

/// What a [`FriendlyNodeConnectivity`] holds, as plain mathematical values.
pub struct FriendlyRecord {
    pub public_key: Seq<char>,
    pub alias: Seq<char>,
    pub capacity: BtcAmount,
    pub first_seen: Seq<char>,
}

/// A node as the read endpoint lists it.
#[derive(Debug, PartialEq, Eq)]
pub struct FriendlyNodeConnectivity {
    pub public_key: String,
    pub alias: String,
    /// The capacity in bitcoin.
    pub capacity: BtcAmount,
    /// The first sighting as an RFC 3339 date and time in UTC, or the words
    /// `Invalid Date` where the timestamp is no date.
    pub first_seen: String,
}

impl View for FriendlyNodeConnectivity {
    type V = FriendlyRecord;

    open spec fn view(&self) -> FriendlyRecord {
        FriendlyRecord {
            public_key: self.public_key@,
            alias: self.alias@,
            capacity: self.capacity,
            first_seen: self.first_seen@,
        }
    }
}

/// The records of a list of rows, in the list's order.
pub open spec fn friendly_records(rows: Seq<FriendlyNodeConnectivity>) -> Seq<FriendlyRecord> {
    rows.map_values(|row: FriendlyNodeConnectivity| row@)
}

/// The RFC 3339 text of the moment `secs` seconds after the epoch, in UTC and
/// to the second, as chrono writes it; `None` where chrono has no date for
/// that moment.
pub uninterp spec fn rfc3339_utc(secs: i64) -> Option<Seq<char>>;

/// Calls chrono's `DateTime::from_timestamp` with `secs` and no nanoseconds
/// and, where that gives a date, `DateTime::to_rfc3339` on it.
///
/// Not proved: that the text returned is the one [`rfc3339_utc`] names. The
/// name says no more than that chrono's answer depends on `secs` alone: the
/// date is in UTC, and neither call reads a clock, a locale or a time zone.
#[verifier::external_body]
fn rfc3339_from_timestamp(secs: i64) -> (text: Option<String>)
    ensures
        match text {
            Some(written) => rfc3339_utc(secs) == Some(written@),
            None => rfc3339_utc(secs) is None,
        },
{
    match chrono::DateTime::from_timestamp(secs, 0) {
        Some(moment) => Some(moment.to_rfc3339()),
        None => None,
    }
}

/// The text shown for a first sighting: the date where there is one, and
/// otherwise the words `Invalid Date`.
pub open spec fn date_text(written: Option<Seq<char>>) -> Seq<char> {
    match written {
        Some(date) => date,
        None => "Invalid Date"@,
    }
}

/// The text shown for a first sighting, given what the calendar made of the
/// timestamp.
pub fn date_or_placeholder(written: Option<String>) -> (text: String)
    ensures
        text@ == date_text(
            match written {
                Some(date) => Some(date@),
                None => None,
            },
        ),
{
    match written {
        Some(date) => date,
        None => String::from_str("Invalid Date"),
    }
}

/// The text shown for the first sighting at `first_seen` seconds after the
/// epoch. A timestamp that is no date does not fail: it is shown as
/// `Invalid Date`.
pub fn render_first_seen(first_seen: i64) -> (text: String)
    ensures
        text@ == date_text(rfc3339_utc(first_seen)),
{
    date_or_placeholder(rfc3339_from_timestamp(first_seen))
}

/// The row that lists a node: the same key and alias, the capacity in
/// bitcoin, and the first sighting as text.
pub open spec fn friendly_record(node: NodeRecord) -> FriendlyRecord {
    FriendlyRecord {
        public_key: node.public_key,
        alias: node.alias,
        capacity: BtcAmount::exactly(node.capacity),
        first_seen: date_text(rfc3339_utc(node.first_seen)),
    }
}

impl NodeConnectivity {
    /// The row that lists this node.
    pub fn to_friendly(&self) -> (row: FriendlyNodeConnectivity)
        ensures
            row@ == friendly_record(self@),
    {
        FriendlyNodeConnectivity {
            public_key: self.public_key.clone(),
            alias: self.alias.clone(),
            capacity: BtcAmount::from_sats(self.capacity),
            first_seen: render_first_seen(self.first_seen),
        }
    }
}

/// The rows that list `nodes`: one row for each node, in the same order.
pub fn respond(nodes: &Vec<NodeConnectivity>) -> (rows: Vec<FriendlyNodeConnectivity>)
    ensures
        friendly_records(rows@) == records(nodes@).map_values(|node: NodeRecord| friendly_record(node)),
{
    let mut rows: Vec<FriendlyNodeConnectivity> = Vec::new();
    let mut i: usize = 0;
    while i < nodes.len()
        invariant
            i <= nodes.len(),
            rows.len() == i,
            forall|k: int| 0 <= k < i ==> (#[trigger] rows[k])@ == friendly_record(nodes[k]@),
        decreases nodes.len() - i,
    {
        rows.push(nodes[i].to_friendly());
        i += 1;
    }
    assert(friendly_records(rows@) =~= records(nodes@).map_values(
        |node: NodeRecord| friendly_record(node),
    ));
    rows
}

} // verus!
