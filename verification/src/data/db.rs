//! The entity store and the event log, held in memory.

use crate::data::coordinator::{after_append, after_write, Decision};
use crate::data::event::{events_view, CreateEventInput, Event, EventView};
use crate::data::log::{about, history, is_chronological, lemma_slot_unique, slot};
use crate::data::mutation::Mutation;
use crate::data::store::Records;
use crate::data::thing::{clone_metadata, things_view, Metadata, Thing, ThingInput, ThingView};
use crate::data::types::{assigned_after, fresh_id, Data, Stamp};
use crate::error::{Error, ErrorView};
use vstd::prelude::*;
use vstd::string::StringExecFns;

verus! {

/// The outcome of a mutation as a mathematical value.
pub open spec fn outcome_view(r: Result<Thing, Error>) -> Result<ThingView, ErrorView> {
    match r {
        Ok(t) => Ok(t@),
        Err(e) => Err(e@),
    }
}

/// The current state of every thing, and the log of every event.
pub struct DB {
    things: Vec<Thing>,
    events: Vec<Event>,
}

impl View for DB {
    type V = Records;

    closed spec fn view(&self) -> Records {
        Records { things: things_view(self.things@), events: events_view(self.events@) }
    }
}

impl DB {
    #[verifier::type_invariant]
    spec fn inv(self) -> bool {
        self@.wf()
    }

    /// A store that holds no thing and a log that holds no event.
    pub fn new() -> (r: DB)
        ensures
            r@ == Records::empty(),
            r@.wf(),
    {
        let r = DB { things: Vec::new(), events: Vec::new() };
        assert(r@.things =~= Seq::empty());
        assert(r@.events =~= Seq::empty());
        r
    }

    /// Where the thing with the given identity stands, if the store holds it.
    fn position(&self, id: u128) -> (r: Option<usize>)
        ensures
            self@.wf(),
            match r {
                Some(i) => i < self.things@.len() && self@.holds(id) && self@.index_of(id) == i,
                None => !self@.holds(id),
            },
    {
        proof {
            use_type_invariant(self);
        }
        let mut i: usize = 0;
        while i < self.things.len()
            invariant
                i <= self.things@.len(),
                self@.wf(),
                forall|j: int| 0 <= j < i ==> (#[trigger] self@.things[j]).id != id,
            decreases self.things@.len() - i,
        {
            if self.things[i].id == id {
                proof {
                    self@.lemma_index_unique(id, i as int);
                }
                return Some(i);
            }
            i += 1;
        }
        None
    }

    /// Every thing, in the order of creation.
    pub fn all_things(&self) -> (r: Result<Vec<Thing>, Error>)
        ensures
            self@.wf(),
            r matches Ok(things) && things_view(things@) == self@.things,
    {
        proof {
            use_type_invariant(self);
        }
        let mut out: Vec<Thing> = Vec::new();
        let mut i: usize = 0;
        while i < self.things.len()
            invariant
                i <= self.things@.len(),
                things_view(out@) == self@.things.take(i as int),
            decreases self.things@.len() - i,
        {
            let thing = self.things[i].clone();
            proof {
                assert(things_view(out@.push(thing)) =~= things_view(out@).push(thing@));
                assert(self@.things.take(i + 1) =~= self@.things.take(i as int).push(
                    self@.things[i as int],
                ));
            }
            out.push(thing);
            i += 1;
        }
        assert(self@.things.take(i as int) =~= self@.things);
        Ok(out)
    }

    /// Every event, in the order in which the events were appended.
    pub fn all_events(&self) -> (r: Result<Vec<Event>, Error>)
        ensures
            self@.wf(),
            r matches Ok(events) && events_view(events@) == self@.events,
    {
        proof {
            use_type_invariant(self);
        }
        let mut out: Vec<Event> = Vec::new();
        let mut i: usize = 0;
        while i < self.events.len()
            invariant
                i <= self.events@.len(),
                events_view(out@) == self@.events.take(i as int),
            decreases self.events@.len() - i,
        {
            let event = self.events[i].clone();
            proof {
                assert(events_view(out@.push(event)) =~= events_view(out@).push(event@));
                assert(self@.events.take(i + 1) =~= self@.events.take(i as int).push(
                    self@.events[i as int],
                ));
            }
            out.push(event);
            i += 1;
        }
        assert(self@.events.take(i as int) =~= self@.events);
        Ok(out)
    }

    /// The current state of the thing with the given identity, or `None` if
    /// the store holds no such thing. An unknown identity is no error.
    pub fn get_thing_by_id(&self, id: u128) -> (r: Result<Option<Thing>, Error>)
        ensures
            self@.wf(),
            match r {
                Ok(Some(thing)) => self@.get(id) == Some(thing@),
                Ok(None) => self@.get(id) is None,
                Err(_) => false,
            },
    {
        match self.position(id) {
            Some(i) => Ok(Some(self.things[i].clone())),
            None => Ok(None),
        }
    }

    /// The events recorded under exactly the given name, in the order in
    /// which they were appended.
    pub fn events_by_kind(&self, kind: String) -> (r: Result<Vec<Event>, Error>)
        ensures
            self@.wf(),
            r matches Ok(events) && events_view(events@) == self@.by_kind(kind@),
    {
        proof {
            use_type_invariant(self);
        }
        let ghost pred = |e: EventView| e.kind == kind@;
        let mut out: Vec<Event> = Vec::new();
        let mut i: usize = 0;
        proof {
            reveal(Seq::filter);
            assert(self@.events.take(0) =~= Seq::<EventView>::empty());
        }
        while i < self.events.len()
            invariant
                i <= self.events@.len(),
                pred == (|e: EventView| e.kind == kind@),
                events_view(out@) == self@.events.take(i as int).filter(pred),
            decreases self.events@.len() - i,
        {
            proof {
                self@.events.take(i as int).lemma_filter_push(self@.events[i as int], pred);
                assert(self@.events.take(i + 1) =~= self@.events.take(i as int).push(
                    self@.events[i as int],
                ));
            }
            if self.events[i].kind == kind {
                let event = self.events[i].clone();
                proof {
                    assert(events_view(out@.push(event)) =~= events_view(out@).push(event@));
                }
                out.push(event);
            }
            i += 1;
        }
        assert(self@.events.take(i as int) =~= self@.events);
        Ok(out)
    }

    /// The history of the thing with the given identity: the events about
    /// it, ordered by their instants, earliest first. Events of one instant
    /// stand in the order in which they were appended. Since the log assigns
    /// instants that never go back, this is the order of the log. The history
    /// of a thing that the store does not hold is empty.
    pub fn get_thing_history(&self, id: u128) -> (r: Result<Vec<Event>, Error>)
        ensures
            self@.wf(),
            r matches Ok(events) && events_view(events@) == self@.history_of(id)
                && events_view(events@) == about(self@.events, id) && is_chronological(
                events_view(events@),
            ),
    {
        proof {
            use_type_invariant(self);
            self@.lemma_history_in_log_order(id);
        }
        let mut out: Vec<Event> = Vec::new();
        let mut i: usize = 0;
        proof {
            assert(self@.events.take(0) =~= Seq::<EventView>::empty());
        }
        while i < self.events.len()
            invariant
                i <= self.events@.len(),
                events_view(out@) == history(self@.events.take(i as int), id),
            decreases self.events@.len() - i,
        {
            proof {
                assert(self@.events.take(i + 1).drop_last() =~= self@.events.take(i as int));
                assert(self@.events.take(i + 1).last() == self@.events[i as int]);
            }
            if self.events[i].thing_id == id {
                let event = self.events[i].clone();
                let p = DB::slot_for(&out, &event);
                proof {
                    assert(events_view(out@.insert(p as int, event)) =~= events_view(out@).insert(
                        p as int,
                        event@,
                    ));
                }
                out.insert(p, event);
            }
            i += 1;
        }
        assert(self@.events.take(i as int) =~= self@.events);
        Ok(out)
    }

    /// Where `event` goes into `events` by its instant.
    fn slot_for(events: &Vec<Event>, event: &Event) -> (p: usize)
        ensures
            p <= events@.len(),
            p == slot(events_view(events@), event.timestamp),
    {
        let mut p: usize = events.len();
        while p > 0 && events[p - 1].timestamp.is_after(&event.timestamp)
            invariant
                p <= events@.len(),
                forall|k: int|
                    p <= k < events@.len() ==> (#[trigger] events_view(
                        events@,
                    )[k]).timestamp.ticks() > event.timestamp.ticks(),
            decreases p,
        {
            p -= 1;
        }
        proof {
            lemma_slot_unique(events_view(events@), event.timestamp, p as int);
        }
        p
    }

    /// Moves the things and the events out and leaves the store empty.
    fn take(&mut self) -> (r: (Vec<Thing>, Vec<Event>))
        ensures
            things_view(r.0@) == old(self)@.things,
            events_view(r.1@) == old(self)@.events,
    {
        let mut taken = DB::new();
        std::mem::swap(self, &mut taken);
        let DB { things, events } = taken;
        (things, events)
    }

    /// Puts `thing` where the thing at position `i` stands and hands back a
    /// copy of it.
    fn replace(&mut self, i: usize, thing: Thing) -> (r: Thing)
        requires
            i < old(self)@.things.len(),
            (Records {
                things: old(self)@.things.update(i as int, thing@),
                events: old(self)@.events,
            }).wf(),
        ensures
            r@ == thing@,
            final(self)@ == (Records {
                things: old(self)@.things.update(i as int, thing@),
                events: old(self)@.events,
            }),
    {
        let copy = thing.clone();
        let (mut things, events) = self.take();
        proof {
            assert(things_view(things@.update(i as int, thing)) =~= things_view(things@).update(
                i as int,
                thing@,
            ));
        }
        things.set(i, thing);
        *self = DB { things, events };
        copy
    }

    /// Puts `thing` behind the things that the store holds and hands back a
    /// copy of it.
    fn insert(&mut self, thing: Thing) -> (r: Thing)
        requires
            (Records {
                things: old(self)@.things.push(thing@),
                events: old(self)@.events,
            }).wf(),
        ensures
            r@ == thing@,
            final(self)@ == (Records {
                things: old(self)@.things.push(thing@),
                events: old(self)@.events,
            }),
    {
        let copy = thing.clone();
        let (mut things, events) = self.take();
        proof {
            assert(things_view(things@.push(thing)) =~= things_view(things@).push(thing@));
        }
        things.push(thing);
        *self = DB { things, events };
        copy
    }

    /// Does the log hold an event with this identity?
    fn logs_event(&self, id: u128) -> (r: bool)
        ensures
            r == self@.logs(id),
    {
        let mut k: usize = 0;
        while k < self.events.len()
            invariant
                k <= self.events@.len(),
                forall|j: int| 0 <= j < k ==> (#[trigger] self@.events[j]).id != id,
            decreases self.events@.len() - k,
        {
            if self.events[k].id == id {
                assert(self@.events[k as int].id == id);
                return true;
            }
            k += 1;
        }
        false
    }

    /// Checks a mutation against the validation rules and against what the
    /// store holds. An accepted update comes with the position of its thing.
    fn examine(&self, mutation: &Mutation) -> (r: Result<Option<usize>, Error>)
        ensures
            match r {
                Ok(Some(i)) => self@.written(*mutation) is Ok && !(mutation is Create) && i
                    < self@.things.len() && i == self@.index_of(mutation.thing_id()),
                Ok(None) => self@.written(*mutation) is Ok && mutation is Create,
                Err(e) => self@.written(*mutation) == Err::<ThingView, ErrorView>(e@),
            },
    {
        if let Err(e) = mutation.validate() {
            return Err(e);
        }
        let found = self.position(mutation.target());
        match (mutation, found) {
            (Mutation::Create { .. }, Some(_)) => Err(
                Error::Sql(String::from_str("duplicate thing identifier")),
            ),
            (Mutation::Create { .. }, None) => Ok(None),
            (_, Some(i)) => Ok(Some(i)),
            (_, None) => Err(Error::NotFound),
        }
    }

    /// Carries out the write of an accepted mutation: stores the new state
    /// of the thing and hands back a copy of it. No event is appended here.
    fn write(&mut self, mutation: Mutation, found: Option<usize>) -> (r: Thing)
        requires
            old(self)@.written(mutation) is Ok,
            match found {
                Some(i) => !(mutation is Create) && i < old(self)@.things.len() && i == old(
                    self,
                )@.index_of(mutation.thing_id()),
                None => mutation is Create,
            },
        ensures
            r@ == old(self)@.written(mutation)->Ok_0,
            final(self)@ == old(self)@.with_written(mutation),
            final(self)@.wf(),
    {
        proof {
            use_type_invariant(&*self);
            self@.lemma_with_written_wf(mutation);
        }
        match mutation {
            Mutation::Create { id, input } => self.insert(Thing::with_id(input, id)),
            Mutation::UpdateKind { id, kind } => {
                let i = found.unwrap();
                let current = &self.things[i];
                let updated = Thing {
                    id: current.id,
                    kind,
                    status: current.status.clone(),
                    metadata: clone_metadata(&current.metadata),
                    data: current.data.clone(),
                };
                self.replace(i, updated)
            },
            Mutation::UpdateStatus { id, status } => {
                let i = found.unwrap();
                let current = &self.things[i];
                let updated = Thing {
                    id: current.id,
                    kind: current.kind.clone(),
                    status,
                    metadata: clone_metadata(&current.metadata),
                    data: current.data.clone(),
                };
                self.replace(i, updated)
            },
            Mutation::UpdateMetadata { id, metadata } => {
                let i = found.unwrap();
                let current = &self.things[i];
                let updated = Thing {
                    id: current.id,
                    kind: current.kind.clone(),
                    status: current.status.clone(),
                    metadata: Some(Metadata(metadata.0)),
                    data: current.data.clone(),
                };
                self.replace(i, updated)
            },
            Mutation::UpdateData { id, data } => {
                let i = found.unwrap();
                let current = &self.things[i];
                let updated = Thing {
                    id: current.id,
                    kind: current.kind.clone(),
                    status: current.status.clone(),
                    metadata: clone_metadata(&current.metadata),
                    data,
                };
                self.replace(i, updated)
            },
        }
    }

    /// Appends the event that `input` describes and hands back a copy of
    /// it. The event receives the identity of `stamp`, and the instant of
    /// `stamp` unless the last event of the log is later: then it receives
    /// the instant of that event. A description without a name is refused
    /// with `InvalidInput`, and the log stays as it is.
    fn create_event(&mut self, input: CreateEventInput, stamp: Stamp) -> (r: Result<Event, Error>)
        requires
            old(self)@.holds(input@.thing_id),
            !old(self)@.logs(stamp.id),
        ensures
            match r {
                Ok(event) => input@.kind.len() > 0 && event@ == input@.stamped(
                    Stamp { id: stamp.id, at: old(self)@.assigned(stamp.at) },
                ) && final(self)@ == old(self)@.with_event(event@),
                Err(e) => input@.kind.len() == 0 && e@ == ErrorView::InvalidInput && final(self)@
                    == old(self)@,
            },
            final(self)@.wf(),
    {
        proof {
            use_type_invariant(&*self);
        }
        if !input.is_valid() {
            return Err(Error::InvalidInput);
        }
        let ghost before = self@;
        let (things, mut events) = self.take();
        let last = if events.len() > 0 {
            Some(events[events.len() - 1].timestamp)
        } else {
            None
        };
        let at = assigned_after(stamp.at, last);
        let event = Event::stamped(input, Stamp { id: stamp.id, at });
        let copy = event.clone();
        proof {
            if events@.len() > 0 {
                assert(before.events.last() == events@.last()@);
            }
            before.lemma_assigned_not_earlier(stamp.at);
            before.lemma_with_event_wf(event@);
            assert(events_view(events@.push(event)) =~= events_view(events@).push(event@));
        }
        events.push(event);
        *self = DB { things, events };
        Ok(copy)
    }

    /// Commits a mutation as one unit of work: writes the thing and appends
    /// the one event that records the change, or does neither. The event
    /// receives the identity of `stamp`, and the instant of `stamp` unless the
    /// log holds a later event: instants in the log never go back.
    ///
    /// On success the result is the thing's new state. A mutation that fails
    /// validation, that creates a thing under an identity that is taken, or
    /// that updates a thing that the store does not hold, is refused with
    /// the error of its write. A stamp whose identity is that of a logged
    /// event is a storage fault. Whenever the result is an error, the store
    /// and the log are exactly as they were.
    pub fn commit_mutation(&mut self, mutation: Mutation, stamp: Stamp) -> (r: Result<Thing, Error>)
        ensures
            outcome_view(r) == old(self)@.outcome(mutation, stamp),
            final(self)@ == old(self)@.after(mutation, stamp),
            final(self)@.wf(),
    {
        proof {
            use_type_invariant(&*self);
            self@.lemma_with_written_wf(mutation);
            mutation.lemma_tag_not_empty();
        }
        let descriptor = mutation.describe();
        let written = match self.examine(&mutation) {
            Err(refusal) => Err(refusal),
            Ok(found) => if self.logs_event(stamp.id) {
                Err(Error::Sql(String::from_str("duplicate event identifier")))
            } else {
                Ok(self.write(mutation, found))
            },
        };
        match after_write(written, descriptor) {
            Decision::Abandon { error } => Err(error),
            Decision::Append { thing, event } => {
                let appended = match self.create_event(event, stamp) {
                    Ok(_) => Ok(()),
                    Err(cause) => Err(cause),
                };
                after_append(thing, appended)
            },
        }
    }

    /// Creates a thing from `input` under a newly drawn random identity and
    /// records the creation as a `create` event with a random identity. The
    /// event's instant is the clock's reading, or that of the last event of
    /// the log if the clock has gone back behind it.
    ///
    /// An input with an empty kind, an empty status or empty data is refused
    /// with `InvalidInput`. Should a drawn identity be taken, the creation
    /// fails with a storage fault. Whenever the result is an error, nothing
    /// is stored and nothing is logged.
    pub fn create_thing(&mut self, input: ThingInput) -> (r: Result<Thing, Error>)
        ensures
            final(self)@.wf(),
            !input.valid() ==> outcome_view(r) == Err::<ThingView, ErrorView>(
                ErrorView::InvalidInput,
            ) && final(self)@ == old(self)@,
            old(self)@.creates(input, outcome_view(r), final(self)@),
    {
        self.commit_mutation(Mutation::Create { id: fresh_id(), input }, Stamp::fresh())
    }

    /// Replaces the kind of the thing with the given identity and records
    /// the change as an `update_kind` event.
    ///
    /// An empty kind is refused with `EmptyKind`; otherwise an identity that
    /// the store does not hold is refused with `NotFound`. Whenever the
    /// result is an error, nothing is changed and nothing is logged.
    pub fn update_thing_kind(&mut self, id: u128, kind: String) -> (r: Result<Thing, Error>)
        ensures
            final(self)@.wf(),
            old(self)@.written(Mutation::UpdateKind { id, kind }) matches Err(e) ==> outcome_view(r)
                == Err::<ThingView, ErrorView>(e) && final(self)@ == old(self)@,
            old(self)@.commits(Mutation::UpdateKind { id, kind }, outcome_view(r), final(self)@),
    {
        self.commit_mutation(Mutation::UpdateKind { id, kind }, Stamp::fresh())
    }

    /// Replaces the status of the thing with the given identity and records
    /// the change as an `update_status` event.
    ///
    /// An empty status is refused with `EmptyStatus`; otherwise an identity
    /// that the store does not hold is refused with `NotFound`. Whenever the
    /// result is an error, nothing is changed and nothing is logged.
    pub fn update_thing_status(&mut self, id: u128, status: String) -> (r: Result<Thing, Error>)
        ensures
            final(self)@.wf(),
            old(self)@.written(Mutation::UpdateStatus { id, status }) matches Err(e)
                ==> outcome_view(r) == Err::<ThingView, ErrorView>(e) && final(self)@ == old(
                self,
            )@,
            old(self)@.commits(
                Mutation::UpdateStatus { id, status },
                outcome_view(r),
                final(self)@,
            ),
    {
        self.commit_mutation(Mutation::UpdateStatus { id, status }, Stamp::fresh())
    }

    /// Replaces the metadata of the thing with the given identity and
    /// records the change as an `update_metadata` event.
    ///
    /// An empty document is refused with `EmptyData`; otherwise an identity
    /// that the store does not hold is refused with `NotFound`. Whenever the
    /// result is an error, nothing is changed and nothing is logged.
    pub fn update_thing_metadata(&mut self, id: u128, metadata: Data) -> (r: Result<Thing, Error>)
        ensures
            final(self)@.wf(),
            old(self)@.written(Mutation::UpdateMetadata { id, metadata }) matches Err(e)
                ==> outcome_view(r) == Err::<ThingView, ErrorView>(e) && final(self)@ == old(
                self,
            )@,
            old(self)@.commits(
                Mutation::UpdateMetadata { id, metadata },
                outcome_view(r),
                final(self)@,
            ),
    {
        self.commit_mutation(Mutation::UpdateMetadata { id, metadata }, Stamp::fresh())
    }

    /// Replaces the data of the thing with the given identity and records
    /// the change as an `update_data` event.
    ///
    /// An empty document is refused with `EmptyData`; otherwise an identity
    /// that the store does not hold is refused with `NotFound`. Whenever the
    /// result is an error, nothing is changed and nothing is logged.
    pub fn update_thing_data(&mut self, id: u128, data: Data) -> (r: Result<Thing, Error>)
        ensures
            final(self)@.wf(),
            old(self)@.written(Mutation::UpdateData { id, data }) matches Err(e) ==> outcome_view(r)
                == Err::<ThingView, ErrorView>(e) && final(self)@ == old(self)@,
            old(self)@.commits(Mutation::UpdateData { id, data }, outcome_view(r), final(self)@),
    {
        self.commit_mutation(Mutation::UpdateData { id, data }, Stamp::fresh())
    }
}

} // verus!
