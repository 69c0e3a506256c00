//! The event: an immutable fact about one change to a thing.

use crate::data::types::{Data, Stamp, Timestamp};
use vstd::prelude::*;

verus! {

/// The entries of an optional document.
pub open spec fn data_view(data: Option<Data>) -> Option<Map<Seq<char>, Seq<char>>> {
    match data {
        Some(d) => Some(d@),
        None => None,
    }
}

/// Copies an optional document.
pub fn clone_data(data: &Option<Data>) -> (r: Option<Data>)
    ensures
        data_view(r) == data_view(*data),
{
    match data {
        Some(d) => Some(d.clone()),
        None => None,
    }
}

/// An immutable record of one change to a thing. It refers to the thing by
/// its identifier and owns nothing of it.
#[derive(Debug)]
pub struct Event {
    pub id: u128,
    pub thing_id: u128,
    pub kind: String,
    pub timestamp: Timestamp,
    pub metadata: Option<Data>,
}

/// An event as a mathematical value.
pub struct EventView {
    pub id: u128,
    pub thing_id: u128,
    pub kind: Seq<char>,
    pub timestamp: Timestamp,
    pub metadata: Option<Map<Seq<char>, Seq<char>>>,
}

impl View for Event {
    type V = EventView;

    open spec fn view(&self) -> EventView {
        EventView {
            id: self.id,
            thing_id: self.thing_id,
            kind: self.kind@,
            timestamp: self.timestamp,
            metadata: data_view(self.metadata),
        }
    }
}

impl Clone for Event {
    fn clone(&self) -> (r: Self)
        ensures
            r@ == self@,
    {
        Event {
            id: self.id,
            thing_id: self.thing_id,
            kind: self.kind.clone(),
            timestamp: self.timestamp,
            metadata: clone_data(&self.metadata),
        }
    }
}

/// The events of a sequence as mathematical values.
pub open spec fn events_view(events: Seq<Event>) -> Seq<EventView> {
    events.map_values(|e: Event| e@)
}

/// The description of an event that is yet to be recorded: the thing it is
/// about, the name of the change, and an optional document.
#[derive(Debug)]
pub struct CreateEventInput {
    thing_id: u128,
    kind: String,
    metadata: Option<Data>,
}

/// An event description as a mathematical value.
pub struct EventInputView {
    pub thing_id: u128,
    pub kind: Seq<char>,
    pub metadata: Option<Map<Seq<char>, Seq<char>>>,
}

impl EventInputView {
    /// The event that results when the description is stamped.
    pub open spec fn stamped(self, stamp: Stamp) -> EventView {
        EventView {
            id: stamp.id,
            thing_id: self.thing_id,
            kind: self.kind,
            timestamp: stamp.at,
            metadata: self.metadata,
        }
    }
}

impl View for CreateEventInput {
    type V = EventInputView;

    closed spec fn view(&self) -> EventInputView {
        EventInputView {
            thing_id: self.thing_id,
            kind: self.kind@,
            metadata: data_view(self.metadata),
        }
    }
}

impl CreateEventInput {
    pub fn new(thing_id: u128, kind: String, metadata: Option<Data>) -> (r: Self)
        ensures
            r@ == (EventInputView { thing_id, kind: kind@, metadata: data_view(metadata) }),
    {
        Self { thing_id, kind, metadata }
    }

    /// A description is valid when it names the change.
    pub fn is_valid(&self) -> (r: bool)
        ensures
            r == (self@.kind.len() > 0),
    {
        !self.kind.as_str().is_empty()
    }
}

impl Event {
    /// The event that `input` describes, with the identity and the instant
    /// of `stamp`.
    pub fn stamped(input: CreateEventInput, stamp: Stamp) -> (r: Event)
        ensures
            r@ == input@.stamped(stamp),
    {
        Event {
            id: stamp.id,
            thing_id: input.thing_id,
            kind: input.kind,
            timestamp: stamp.at,
            metadata: input.metadata,
        }
    }

    /// The event that `input` describes. Its identity is drawn at random and
    /// its instant is read from the clock.
    pub fn new(input: CreateEventInput) -> (r: Event)
        ensures
            (Stamp { id: r.id, at: r.timestamp }).is_fresh(),
            r@ == input@.stamped(Stamp { id: r.id, at: r.timestamp }),
    {
        Event::stamped(input, Stamp::fresh())
    }
}

} // verus!
