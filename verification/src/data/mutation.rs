//! The changes that a thing can undergo, and the rules that decide whether a
//! change is accepted.

use crate::data::event::{CreateEventInput, EventInputView};
use crate::data::thing::{ThingInput, ThingView};
use crate::data::types::Data;
use crate::error::{Error, ErrorView};
use vstd::prelude::*;
use vstd::string::StringExecFns;

verus! {

/// One change to the store: the creation of a thing under a given identity,
/// or the replacement of one field of the thing with a given identity.
#[derive(Debug)]
pub enum Mutation {
    Create { id: u128, input: ThingInput },
    UpdateKind { id: u128, kind: String },
    UpdateStatus { id: u128, status: String },
    UpdateMetadata { id: u128, metadata: Data },
    UpdateData { id: u128, data: Data },
}

impl Mutation {
    /// The identity of the thing that the mutation creates or changes.
    pub open spec fn thing_id(&self) -> u128 {
        match self {
            Mutation::Create { id, .. } => *id,
            Mutation::UpdateKind { id, .. } => *id,
            Mutation::UpdateStatus { id, .. } => *id,
            Mutation::UpdateMetadata { id, .. } => *id,
            Mutation::UpdateData { id, .. } => *id,
        }
    }

    /// The name under which the mutation is recorded in the event log.
    pub open spec fn tag(&self) -> Seq<char> {
        match self {
            Mutation::Create { .. } => "create"@,
            Mutation::UpdateKind { .. } => "update_kind"@,
            Mutation::UpdateStatus { .. } => "update_status"@,
            Mutation::UpdateMetadata { .. } => "update_metadata"@,
            Mutation::UpdateData { .. } => "update_data"@,
        }
    }

    /// The validation error that the mutation is refused with, if it is
    /// refused: a creation needs a valid input, a new kind or status must not
    /// be empty, and a new document must hold at least one entry.
    pub open spec fn rejection(&self) -> Option<ErrorView> {
        match self {
            Mutation::Create { input, .. } => if input.valid() {
                None
            } else {
                Some(ErrorView::InvalidInput)
            },
            Mutation::UpdateKind { kind, .. } => if kind@.len() > 0 {
                None
            } else {
                Some(ErrorView::EmptyKind)
            },
            Mutation::UpdateStatus { status, .. } => if status@.len() > 0 {
                None
            } else {
                Some(ErrorView::EmptyStatus)
            },
            Mutation::UpdateMetadata { metadata, .. } => if !metadata@.is_empty() {
                None
            } else {
                Some(ErrorView::EmptyData)
            },
            Mutation::UpdateData { data, .. } => if !data@.is_empty() {
                None
            } else {
                Some(ErrorView::EmptyData)
            },
        }
    }

    /// The state of the thing once the mutation has been carried out, given
    /// the state `before` it. A creation does not depend on `before`.
    pub open spec fn result(&self, before: ThingView) -> ThingView {
        match self {
            Mutation::Create { id, input } => input.as_thing(*id),
            Mutation::UpdateKind { kind, .. } => ThingView { kind: kind@, ..before },
            Mutation::UpdateStatus { status, .. } => ThingView { status: status@, ..before },
            Mutation::UpdateMetadata { metadata, .. } => ThingView {
                metadata: Some(metadata@),
                ..before
            },
            Mutation::UpdateData { data, .. } => ThingView { data: data@, ..before },
        }
    }

    /// The description of the event that records the mutation.
    pub open spec fn descriptor(&self) -> EventInputView {
        EventInputView { thing_id: self.thing_id(), kind: self.tag(), metadata: None }
    }

    /// No mutation is recorded under an empty name.
    pub proof fn lemma_tag_not_empty(&self)
        ensures
            self.tag().len() > 0,
    {
        reveal_strlit("create");
        reveal_strlit("update_kind");
        reveal_strlit("update_status");
        reveal_strlit("update_metadata");
        reveal_strlit("update_data");
    }

    /// A mutation that passes validation leaves a valid thing valid, and a
    /// creation that passes validation makes a valid thing.
    pub proof fn lemma_result_valid(&self, before: ThingView)
        requires
            self.rejection() is None,
            self is Create || before.is_valid(),
        ensures
            self.result(before).is_valid(),
            self.result(before).id == (if self is Create {
                self.thing_id()
            } else {
                before.id
            }),
    {
    }

    /// The identity of the thing that the mutation creates or changes.
    pub fn target(&self) -> (r: u128)
        ensures
            r == self.thing_id(),
    {
        match self {
            Mutation::Create { id, .. } => *id,
            Mutation::UpdateKind { id, .. } => *id,
            Mutation::UpdateStatus { id, .. } => *id,
            Mutation::UpdateMetadata { id, .. } => *id,
            Mutation::UpdateData { id, .. } => *id,
        }
    }

    /// The name under which the mutation is recorded in the event log.
    pub fn event_kind(&self) -> (r: String)
        ensures
            r@ == self.tag(),
    {
        match self {
            Mutation::Create { .. } => String::from_str("create"),
            Mutation::UpdateKind { .. } => String::from_str("update_kind"),
            Mutation::UpdateStatus { .. } => String::from_str("update_status"),
            Mutation::UpdateMetadata { .. } => String::from_str("update_metadata"),
            Mutation::UpdateData { .. } => String::from_str("update_data"),
        }
    }

    /// Checks the mutation against the validation rules.
    pub fn validate(&self) -> (r: Result<(), Error>)
        ensures
            match r {
                Ok(()) => self.rejection() is None,
                Err(e) => self.rejection() == Some(e@),
            },
    {
        match self {
            Mutation::Create { input, .. } => if input.is_valid() {
                Ok(())
            } else {
                Err(Error::InvalidInput)
            },
            Mutation::UpdateKind { kind, .. } => if !kind.as_str().is_empty() {
                Ok(())
            } else {
                Err(Error::EmptyKind)
            },
            Mutation::UpdateStatus { status, .. } => if !status.as_str().is_empty() {
                Ok(())
            } else {
                Err(Error::EmptyStatus)
            },
            Mutation::UpdateMetadata { metadata, .. } => if metadata.is_valid() {
                Ok(())
            } else {
                Err(Error::EmptyData)
            },
            Mutation::UpdateData { data, .. } => if data.is_valid() {
                Ok(())
            } else {
                Err(Error::EmptyData)
            },
        }
    }

    /// The description of the event that records the mutation: the thing's
    /// identity, the mutation's name, and no document.
    pub fn describe(&self) -> (r: CreateEventInput)
        ensures
            r@ == self.descriptor(),
    {
        CreateEventInput::new(self.target(), self.event_kind(), None)
    }
}

} // verus!
