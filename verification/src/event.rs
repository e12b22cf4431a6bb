//! The events of a changes feed, and the shapes of JSON they are read from.
//!
//! The feed carries no tag that tells a change from the feed's last record.
//! A JSON value is a change if it has the members of one, and else the
//! feed's last record if it has the members of that; members that neither
//! shape names are ignored.

use crate::json::{as_array, as_bool, as_str, as_u64, duplicate, is_null, json_of, member, Json};
use serde_json::Value;
use vstd::prelude::*;

verus! {

/// One revision of a document.
#[derive(Debug)]
pub struct Change {
    /// The revision's identifier.
    pub rev: String,
}

/// A change to one document.
#[derive(Debug)]
pub struct ChangeEvent {
    /// The place of the change in the feed: a number or a string, as the
    /// database chooses.
    pub seq: Value,
    /// The document's identifier.
    pub id: String,
    /// The revisions the change is about, in the order of the feed.
    pub changes: Vec<Change>,
    /// Whether the document was deleted.
    pub deleted: bool,
    /// The document itself, where the feed was asked to include it.
    pub doc: Option<Value>,
}

/// The record that ends a feed.
#[derive(Debug)]
pub struct FinishedEvent {
    /// The place in the feed of the last change sent.
    pub last_seq: Value,
    /// The number of changes that were not sent; older databases do not
    /// tell.
    pub pending: Option<u64>,
}

/// What one record of the feed says.
#[derive(Debug)]
pub enum Event {
    Change(ChangeEvent),
    Finished(FinishedEvent),
}

/// What a [`ChangeEvent`] holds.
pub struct ChangeEventView {
    pub seq: Json,
    pub id: Seq<char>,
    pub changes: Seq<Seq<char>>,
    pub deleted: bool,
    pub doc: Option<Json>,
}

/// What a [`FinishedEvent`] holds.
pub struct FinishedEventView {
    pub last_seq: Json,
    pub pending: Option<u64>,
}

/// What an [`Event`] holds.
pub enum EventView {
    Change(ChangeEventView),
    Finished(FinishedEventView),
}

impl View for Change {
    type V = Seq<char>;

    open spec fn view(&self) -> Seq<char> {
        self.rev@
    }
}

impl View for ChangeEvent {
    type V = ChangeEventView;

    open spec fn view(&self) -> ChangeEventView {
        ChangeEventView {
            seq: json_of(self.seq),
            id: self.id@,
            changes: self.changes@.map_values(|change: Change| change@),
            deleted: self.deleted,
            doc: match self.doc {
                Some(doc) => Some(json_of(doc)),
                None => None,
            },
        }
    }
}

impl View for FinishedEvent {
    type V = FinishedEventView;

    open spec fn view(&self) -> FinishedEventView {
        FinishedEventView { last_seq: json_of(self.last_seq), pending: self.pending }
    }
}

impl View for Event {
    type V = EventView;

    open spec fn view(&self) -> EventView {
        match self {
            Event::Change(change) => EventView::Change(change@),
            Event::Finished(finished) => EventView::Finished(finished@),
        }
    }
}

/// The revision that `json` stands for: the string under `rev` of an
/// object.
pub open spec fn revision_of(json: Json) -> Option<Seq<char>> {
    match json.member("rev"@) {
        Some(rev) => rev.as_text(),
        None => None,
    }
}

/// The revisions that `items` stand for, if each of them stands for one.
pub open spec fn revisions_of(items: Seq<Json>) -> Option<Seq<Seq<char>>> {
    if forall|i: int| 0 <= i < items.len() ==> (#[trigger] revision_of(items[i])) is Some {
        Some(items.map_values(|item: Json| revision_of(item).unwrap()))
    } else {
        None
    }
}

/// A member that may be left out: `null` counts as left out.
pub open spec fn given(member: Option<Json>) -> Option<Json> {
    match member {
        Some(value) if !(value is Null) => Some(value),
        _ => None,
    }
}

/// The change that `json` stands for, if it has the shape of one: an object
/// with a member `seq`, a string `id`, an array `changes` of revisions, and,
/// if it has a member `deleted`, a boolean there. `deleted` left out is
/// `false`; `doc` left out or `null` is no document.
pub open spec fn change_of(json: Json) -> Option<ChangeEventView> {
    let seq = json.member("seq"@);
    let id = match json.member("id"@) {
        Some(id) => id.as_text(),
        None => None,
    };
    let changes = match json.member("changes"@) {
        Some(Json::Array(items)) => revisions_of(items),
        _ => None,
    };
    let deleted = match json.member("deleted"@) {
        Some(flag) => flag.as_flag(),
        None => Some(false),
    };
    if seq is Some && id is Some && changes is Some && deleted is Some {
        Some(
            ChangeEventView {
                seq: seq.unwrap(),
                id: id.unwrap(),
                changes: changes.unwrap(),
                deleted: deleted.unwrap(),
                doc: given(json.member("doc"@)),
            },
        )
    } else {
        None
    }
}

/// The count under `pending`: `Some(None)` where it is left out or `null`,
/// `None` where something stands there that is no count.
pub open spec fn pending_of(json: Json) -> Option<Option<u64>> {
    match given(json.member("pending"@)) {
        Some(value) => match value.as_count() {
            Some(count) => Some(Some(count)),
            None => None,
        },
        None => Some(None),
    }
}

/// The end of feed that `json` stands for, if it has the shape of one: an
/// object with a member `last_seq` and, if it has a member `pending` that
/// is not `null`, an integer from zero to `u64::MAX` there.
pub open spec fn finished_of(json: Json) -> Option<FinishedEventView> {
    let last_seq = json.member("last_seq"@);
    let pending = pending_of(json);
    if last_seq is Some && pending is Some {
        Some(FinishedEventView { last_seq: last_seq.unwrap(), pending: pending.unwrap() })
    } else {
        None
    }
}

/// The event that `json` stands for: a change if it has the shape of one,
/// else the end of the feed if it has the shape of that, else none.
pub open spec fn event_of(json: Json) -> Option<EventView> {
    match change_of(json) {
        Some(change) => Some(EventView::Change(change)),
        None => match finished_of(json) {
            Some(finished) => Some(EventView::Finished(finished)),
            None => None,
        },
    }
}

impl Change {
    /// Reads a revision from a JSON value.
    pub fn from_value(value: &Value) -> (change: Option<Change>)
        ensures
            match change {
                Some(change) => revision_of(json_of(*value)) == Some(change@),
                None => revision_of(json_of(*value)).is_none(),
            },
    {
        match member(value, "rev") {
            Some(rev) => match as_str(rev) {
                Some(text) => Some(Change { rev: text.to_owned() }),
                None => None,
            },
            None => None,
        }
    }
}

/// Reads the revisions of a change from the elements of a JSON array.
pub(crate) fn revisions_from(items: &Vec<Value>) -> (revisions: Option<Vec<Change>>)
    ensures
        match revisions {
            Some(list) => revisions_of(items@.map_values(|item: Value| json_of(item))) == Some(
                list@.map_values(|change: Change| change@),
            ),
            None => revisions_of(items@.map_values(|item: Value| json_of(item))).is_none(),
        },
{
    let ghost models = items@.map_values(|item: Value| json_of(item));
    let mut list: Vec<Change> = Vec::new();
    let mut next: usize = 0;
    while next < items.len()
        invariant
            next <= items.len(),
            models == items@.map_values(|item: Value| json_of(item)),
            list@.len() == next,
            forall|i: int| 0 <= i < next ==> revision_of(models[i]) == Some(#[trigger] list@[i]@),
        decreases items.len() - next,
    {
        match Change::from_value(&items[next]) {
            Some(change) => {
                list.push(change);
            },
            None => {
                assert(revision_of(models[next as int]).is_none());
                return None;
            },
        }
        next += 1;
    }
    proof {
        let views = list@.map_values(|change: Change| change@);
        assert forall|i: int| 0 <= i < models.len() implies (#[trigger] revision_of(
            models[i],
        )) is Some by {
            assert(revision_of(models[i]) == Some(list@[i]@));
        }
        assert(models.map_values(|item: Json| revision_of(item).unwrap()) =~= views) by {
            assert forall|i: int| 0 <= i < views.len() implies revision_of(models[i]).unwrap()
                == views[i] by {
                assert(revision_of(models[i]) == Some(list@[i]@));
            }
        }
    }
    Some(list)
}

impl ChangeEvent {
    /// Reads a change from a JSON value, if the value has the shape of one.
    pub fn from_value(value: &Value) -> (event: Option<ChangeEvent>)
        ensures
            match event {
                Some(event) => change_of(json_of(*value)) == Some(event@),
                None => change_of(json_of(*value)).is_none(),
            },
    {
        let seq = match member(value, "seq") {
            Some(seq) => duplicate(seq),
            None => {
                return None;
            },
        };
        let id = match member(value, "id") {
            Some(id) => match as_str(id) {
                Some(text) => text.to_owned(),
                None => {
                    return None;
                },
            },
            None => {
                return None;
            },
        };
        let changes = match member(value, "changes") {
            Some(list) => match as_array(list) {
                Some(items) => match revisions_from(items) {
                    Some(changes) => changes,
                    None => {
                        return None;
                    },
                },
                None => {
                    return None;
                },
            },
            None => {
                return None;
            },
        };
        let deleted = match member(value, "deleted") {
            Some(flag) => match as_bool(flag) {
                Some(deleted) => deleted,
                None => {
                    return None;
                },
            },
            None => false,
        };
        let doc = match member(value, "doc") {
            Some(doc) => if is_null(doc) {
                None
            } else {
                Some(duplicate(doc))
            },
            None => None,
        };
        Some(ChangeEvent { seq, id, changes, deleted, doc })
    }
}

impl FinishedEvent {
    /// Reads the end of a feed from a JSON value, if the value has the shape
    /// of one.
    pub fn from_value(value: &Value) -> (event: Option<FinishedEvent>)
        ensures
            match event {
                Some(event) => finished_of(json_of(*value)) == Some(event@),
                None => finished_of(json_of(*value)).is_none(),
            },
    {
        let last_seq = match member(value, "last_seq") {
            Some(last_seq) => duplicate(last_seq),
            None => {
                return None;
            },
        };
        let pending = match member(value, "pending") {
            Some(pending) => if is_null(pending) {
                None
            } else {
                match as_u64(pending) {
                    Some(count) => Some(count),
                    None => {
                        return None;
                    },
                }
            },
            None => None,
        };
        Some(FinishedEvent { last_seq, pending })
    }
}

impl Event {
    /// Reads an event from a JSON value: a change if the value has the shape
    /// of one, else the end of the feed if it has the shape of that.
    pub fn from_value(value: &Value) -> (event: Option<Event>)
        ensures
            match event {
                Some(event) => event_of(json_of(*value)) == Some(event@),
                None => event_of(json_of(*value)).is_none(),
            },
    {
        match ChangeEvent::from_value(value) {
            Some(change) => Some(Event::Change(change)),
            None => match FinishedEvent::from_value(value) {
                Some(finished) => Some(Event::Finished(finished)),
                None => None,
            },
        }
    }
}

} // verus!
