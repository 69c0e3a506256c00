//! The boundary of the store and the log: the queries that read them and the
//! mutations that change them.

use crate::data::db::{outcome_view, DB};
use crate::data::event::{events_view, Event};
use crate::data::log::{about, is_chronological};
use crate::data::mutation::Mutation;
use crate::data::thing::{things_view, Thing, ThingInput, ThingView};
use crate::data::types::Data;
use crate::error::{Error, ErrorView};
use vstd::prelude::*;

verus! {

/// The queries. None of them changes the store or the log, so the same query
/// on the same state gives the same answer however often it is asked.
pub struct QueryRoot;

impl QueryRoot {
    /// Every thing, in the order of creation.
    pub fn things(&self, db: &DB) -> (r: Result<Vec<Thing>, Error>)
        ensures
            db@.wf(),
            r matches Ok(things) && things_view(things@) == db@.things,
    {
        db.all_things()
    }

    /// The thing with the given identity, or `None` if there is none.
    pub fn thing_by_id(&self, db: &DB, id: u128) -> (r: Result<Option<Thing>, Error>)
        ensures
            db@.wf(),
            match r {
                Ok(Some(thing)) => db@.get(id) == Some(thing@),
                Ok(None) => db@.get(id) is None,
                Err(_) => false,
            },
    {
        db.get_thing_by_id(id)
    }

    /// The events about the thing with the given identity, ordered by their
    /// instants, earliest first.
    pub fn thing_history(&self, db: &DB, id: u128) -> (r: Result<Vec<Event>, Error>)
        ensures
            db@.wf(),
            r matches Ok(events) && events_view(events@) == db@.history_of(id)
                && events_view(events@) == about(db@.events, id) && is_chronological(
                events_view(events@),
            ),
    {
        db.get_thing_history(id)
    }

    /// Every event, in the order in which the events were appended.
    pub fn events(&self, db: &DB) -> (r: Result<Vec<Event>, Error>)
        ensures
            db@.wf(),
            r matches Ok(events) && events_view(events@) == db@.events,
    {
        db.all_events()
    }

    /// The events recorded under exactly the given name.
    pub fn events_by_kind(&self, db: &DB, kind: String) -> (r: Result<Vec<Event>, Error>)
        ensures
            db@.wf(),
            r matches Ok(events) && events_view(events@) == db@.by_kind(kind@),
    {
        db.events_by_kind(kind)
    }
}

/// The mutations. Each of them is committed as one unit of work: the thing
/// is written and one event is appended, or neither happens.
pub struct MutationRoot;

impl MutationRoot {
    /// Creates a thing under a newly drawn identity.
    pub fn create_thing(&self, db: &mut DB, input: ThingInput) -> (r: Result<Thing, Error>)
        ensures
            final(db)@.wf(),
            !input.valid() ==> outcome_view(r) == Err::<ThingView, ErrorView>(
                ErrorView::InvalidInput,
            ) && final(db)@ == old(db)@,
            old(db)@.creates(input, outcome_view(r), final(db)@),
    {
        db.create_thing(input)
    }

    /// Replaces the kind of a thing.
    pub fn update_thing_kind(&self, db: &mut DB, id: u128, kind: String) -> (r: Result<
        Thing,
        Error,
    >)
        ensures
            final(db)@.wf(),
            old(db)@.written(Mutation::UpdateKind { id, kind }) matches Err(e) ==> outcome_view(r)
                == Err::<ThingView, ErrorView>(e) && final(db)@ == old(db)@,
            old(db)@.commits(Mutation::UpdateKind { id, kind }, outcome_view(r), final(db)@),
    {
        db.update_thing_kind(id, kind)
    }

    /// Replaces the status of a thing.
    pub fn update_thing_status(&self, db: &mut DB, id: u128, status: String) -> (r: Result<
        Thing,
        Error,
    >)
        ensures
            final(db)@.wf(),
            old(db)@.written(Mutation::UpdateStatus { id, status }) matches Err(e)
                ==> outcome_view(r) == Err::<ThingView, ErrorView>(e) && final(db)@ == old(db)@,
            old(db)@.commits(Mutation::UpdateStatus { id, status }, outcome_view(r), final(db)@),
    {
        db.update_thing_status(id, status)
    }

    /// Replaces the metadata of a thing.
    pub fn update_thing_metadata(&self, db: &mut DB, id: u128, metadata: Data) -> (r: Result<
        Thing,
        Error,
    >)
        ensures
            final(db)@.wf(),
            old(db)@.written(Mutation::UpdateMetadata { id, metadata }) matches Err(e)
                ==> outcome_view(r) == Err::<ThingView, ErrorView>(e) && final(db)@ == old(db)@,
            old(db)@.commits(
                Mutation::UpdateMetadata { id, metadata },
                outcome_view(r),
                final(db)@,
            ),
    {
        db.update_thing_metadata(id, metadata)
    }

    /// Replaces the data of a thing.
    pub fn update_thing_data(&self, db: &mut DB, id: u128, data: Data) -> (r: Result<Thing, Error>)
        ensures
            final(db)@.wf(),
            old(db)@.written(Mutation::UpdateData { id, data }) matches Err(e) ==> outcome_view(r)
                == Err::<ThingView, ErrorView>(e) && final(db)@ == old(db)@,
            old(db)@.commits(Mutation::UpdateData { id, data }, outcome_view(r), final(db)@),
    {
        db.update_thing_data(id, data)
    }
}

} // verus!
