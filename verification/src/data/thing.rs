//! The thing: the mutable entity that the system tracks.

use crate::data::types::{fresh_id, is_random_id, document_clone, document_entries, Data};
use vstd::prelude::*;

verus! {

/// The optional key-value document that accompanies a thing.
#[derive(Debug)]
pub struct Metadata(pub serde_json::Map<String, serde_json::Value>);

impl View for Metadata {
    type V = Map<Seq<char>, Seq<char>>;

    open spec fn view(&self) -> Map<Seq<char>, Seq<char>> {
        document_entries(self.0)
    }
}

impl Clone for Metadata {
    fn clone(&self) -> (r: Self)
        ensures
            r@ == self@,
    {
        Metadata(document_clone(&self.0))
    }
}

/// The entries of an optional metadata document.
pub open spec fn metadata_view(metadata: Option<Metadata>) -> Option<Map<Seq<char>, Seq<char>>> {
    match metadata {
        Some(m) => Some(m@),
        None => None,
    }
}

/// Copies an optional metadata document.
pub fn clone_metadata(metadata: &Option<Metadata>) -> (r: Option<Metadata>)
    ensures
        metadata_view(r) == metadata_view(*metadata),
{
    match metadata {
        Some(m) => Some(m.clone()),
        None => None,
    }
}

/// The mutable entity. Its identity is assigned when it is created and never
/// changes; every other field can be replaced.
#[derive(Debug)]
pub struct Thing {
    pub id: u128,
    pub kind: String,
    pub status: String,
    pub metadata: Option<Metadata>,
    pub data: Data,
}

/// A thing as a mathematical value.
pub struct ThingView {
    pub id: u128,
    pub kind: Seq<char>,
    pub status: Seq<char>,
    pub metadata: Option<Map<Seq<char>, Seq<char>>>,
    pub data: Map<Seq<char>, Seq<char>>,
}

impl ThingView {
    /// What holds of every stored thing: its kind and its status are not
    /// empty, and its data holds at least one entry.
    pub open spec fn is_valid(self) -> bool {
        &&& self.kind.len() > 0
        &&& self.status.len() > 0
        &&& !self.data.is_empty()
    }
}

impl View for Thing {
    type V = ThingView;

    open spec fn view(&self) -> ThingView {
        ThingView {
            id: self.id,
            kind: self.kind@,
            status: self.status@,
            metadata: metadata_view(self.metadata),
            data: self.data@,
        }
    }
}

impl Clone for Thing {
    fn clone(&self) -> (r: Self)
        ensures
            r@ == self@,
    {
        Thing {
            id: self.id,
            kind: self.kind.clone(),
            status: self.status.clone(),
            metadata: clone_metadata(&self.metadata),
            data: self.data.clone(),
        }
    }
}

/// The things of a sequence as mathematical values.
pub open spec fn things_view(things: Seq<Thing>) -> Seq<ThingView> {
    things.map_values(|t: Thing| t@)
}

/// What a caller supplies to have a thing created.
#[derive(Debug)]
pub struct ThingInput {
    pub kind: String,
    pub status: String,
    pub metadata: Option<Metadata>,
    pub data: Data,
}

impl ThingInput {
    /// The thing that this input describes, under the given identity.
    pub open spec fn as_thing(&self, id: u128) -> ThingView {
        ThingView {
            id,
            kind: self.kind@,
            status: self.status@,
            metadata: metadata_view(self.metadata),
            data: self.data@,
        }
    }

    /// An input is valid when neither its kind nor its status is empty and
    /// its data holds at least one entry.
    pub open spec fn valid(&self) -> bool {
        self.as_thing(0).is_valid()
    }

    /// Tells whether a thing may be created from this input.
    pub fn is_valid(&self) -> (r: bool)
        ensures
            r == self.valid(),
    {
        !self.kind.as_str().is_empty() && !self.status.as_str().is_empty() && self.data.is_valid()
    }
}

impl Thing {
    /// The thing that `input` describes, under the identity `id`.
    pub fn with_id(input: ThingInput, id: u128) -> (r: Thing)
        ensures
            r@ == input.as_thing(id),
    {
        Thing {
            id,
            kind: input.kind,
            status: input.status,
            metadata: input.metadata,
            data: input.data,
        }
    }

    /// The thing that `input` describes, under a newly drawn random identity.
    pub fn new(input: ThingInput) -> (r: Thing)
        ensures
            is_random_id(r.id),
            r@ == input.as_thing(r.id),
    {
        Thing::with_id(input, fresh_id())
    }
}

} // verus!
