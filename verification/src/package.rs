//! A change as older feeds send it: numbered by an integer, and without
//! the later members.

use crate::event::{revisions_from, revisions_of, Change};
use crate::json::{as_array, as_str, as_u64, json_of, member, Json};
use serde_json::Value;
use vstd::prelude::*;

verus! {

/// A change to one document, in a feed that numbers its changes.
#[derive(Debug)]
pub struct Package {
    seq: u64,
    id: String,
    changes: Vec<Change>,
}

/// What a [`Package`] holds.
pub struct PackageView {
    pub seq: u64,
    pub id: Seq<char>,
    pub changes: Seq<Seq<char>>,
}

impl View for Package {
    type V = PackageView;

    closed spec fn view(&self) -> PackageView {
        PackageView {
            seq: self.seq,
            id: self.id@,
            changes: self.changes@.map_values(|change: Change| change@),
        }
    }
}

/// The package that `json` stands for, if it has the shape of one: an
/// object with an integer from zero to `u64::MAX` under `seq`, a string
/// under `id` and an array of revisions under `changes`.
pub open spec fn package_of(json: Json) -> Option<PackageView> {
    let seq = match json.member("seq"@) {
        Some(seq) => seq.as_count(),
        None => None,
    };
    let id = match json.member("id"@) {
        Some(id) => id.as_text(),
        None => None,
    };
    let changes = match json.member("changes"@) {
        Some(Json::Array(items)) => revisions_of(items),
        _ => None,
    };
    if seq is Some && id is Some && changes is Some {
        Some(PackageView { seq: seq.unwrap(), id: id.unwrap(), changes: changes.unwrap() })
    } else {
        None
    }
}

impl Package {
    /// Reads a package from a JSON value, if the value has the shape of
    /// one.
    pub fn from_value(value: &Value) -> (package: Option<Package>)
        ensures
            match package {
                Some(package) => package_of(json_of(*value)) == Some(package@),
                None => package_of(json_of(*value)).is_none(),
            },
    {
        let seq = match member(value, "seq") {
            Some(seq) => match as_u64(seq) {
                Some(count) => count,
                None => {
                    return None;
                },
            },
            None => {
                return None;
            },
        };
        let id = match member(value, "id") {
            Some(id) => match as_str(id) {
                Some(text) => text.to_owned(),
                None => {
                    return None;
                },
            },
            None => {
                return None;
            },
        };
        let changes = match member(value, "changes") {
            Some(list) => match as_array(list) {
                Some(items) => match revisions_from(items) {
                    Some(changes) => changes,
                    None => {
                        return None;
                    },
                },
                None => {
                    return None;
                },
            },
            None => {
                return None;
            },
        };
        Some(Package { seq, id, changes })
    }

    /// The number of the change in the feed.
    pub fn seq(&self) -> (seq: u64)
        ensures
            seq == self@.seq,
    {
        self.seq
    }

    /// The document's identifier.
    pub fn id(&self) -> (id: &str)
        ensures
            id@ == self@.id,
    {
        self.id.as_str()
    }

    /// The revisions the change is about, in the order of the feed.
    pub fn changes(&self) -> (changes: &Vec<Change>)
        ensures
            changes@.map_values(|change: Change| change@) == self@.changes,
    {
        &self.changes
    }
}

} // verus!
