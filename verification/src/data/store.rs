//! The state of the entity store and the event log as a mathematical value,
//! and what each mutation does to it.

use crate::data::event::EventView;
use crate::data::log::{
    about, history, is_chronological, lemma_history_chronological, lemma_history_in_log_order,
    named,
};
use crate::data::mutation::Mutation;
use crate::data::thing::{ThingInput, ThingView};
use crate::data::types::{is_random_id, Stamp, Timestamp};
use crate::error::ErrorView;
use vstd::prelude::*;

verus! {

/// The things in the order in which they were created, and the events in the
/// order in which they were appended.
pub struct Records {
    pub things: Seq<ThingView>,
    pub events: Seq<EventView>,
}

impl Records {
    /// The state that holds no thing and no event.
    pub open spec fn empty() -> Records {
        Records { things: Seq::empty(), events: Seq::empty() }
    }

    /// Does the store hold a thing with this identity?
    pub open spec fn holds(self, id: u128) -> bool {
        exists|i: int| 0 <= i < self.things.len() && (#[trigger] self.things[i]).id == id
    }

    /// The position of the thing with this identity, where the store holds
    /// one.
    pub open spec fn index_of(self, id: u128) -> int {
        choose|i: int| 0 <= i < self.things.len() && (#[trigger] self.things[i]).id == id
    }

    /// Does the log hold an event with this identity?
    pub open spec fn logs(self, id: u128) -> bool {
        exists|k: int| 0 <= k < self.events.len() && (#[trigger] self.events[k]).id == id
    }

    /// The thing with this identity, if the store holds one.
    pub open spec fn get(self, id: u128) -> Option<ThingView> {
        if self.holds(id) {
            Some(self.things[self.index_of(id)])
        } else {
            None
        }
    }

    /// The instant that an event receives when it is appended with a stamp
    /// of the instant `at`: `at` itself, unless the last event of the log is
    /// later, in which case it is the instant of that event. Instants in the
    /// log therefore never go back, whatever the clock does.
    pub open spec fn assigned(self, at: Timestamp) -> Timestamp {
        if self.events.len() > 0 {
            at.later(self.events.last().timestamp)
        } else {
            at
        }
    }

    /// The event that records a mutation committed with the given stamp: the
    /// mutation's descriptor with the stamp's identity and the instant that
    /// the log assigns.
    pub open spec fn recorded(self, m: Mutation, stamp: Stamp) -> EventView {
        m.descriptor().stamped(Stamp { id: stamp.id, at: self.assigned(stamp.at) })
    }

    /// What holds of every state that the operations produce: no two things
    /// share an identity, and no two events do; every thing is valid; every
    /// event has a name and is about a thing that the store holds; and no
    /// event of the log is later than an event appended after it.
    pub open spec fn wf(self) -> bool {
        &&& is_chronological(self.events)
        &&& forall|i: int, j: int|
            0 <= i < j < self.things.len() ==> (#[trigger] self.things[i]).id != (
            #[trigger] self.things[j]).id
        &&& forall|k: int, l: int|
            0 <= k < l < self.events.len() ==> (#[trigger] self.events[k]).id != (
            #[trigger] self.events[l]).id
        &&& forall|i: int| 0 <= i < self.things.len() ==> (#[trigger] self.things[i]).is_valid()
        &&& forall|k: int|
            0 <= k < self.events.len() ==> (#[trigger] self.events[k]).kind.len() > 0
                && self.holds(self.events[k].thing_id)
    }

    /// The outcome of the write that a mutation asks for: the new state of
    /// the thing, or the error that the write is refused with. A mutation
    /// that fails validation is refused with its validation error. A creation
    /// under an identity that is taken is a storage fault. An update of a
    /// thing that the store does not hold is refused with `NotFound`.
    pub open spec fn written(self, m: Mutation) -> Result<ThingView, ErrorView> {
        match m.rejection() {
            Some(e) => Err(e),
            None => match m {
                Mutation::Create { id, input } => if self.holds(id) {
                    Err(ErrorView::Sql("duplicate thing identifier"@))
                } else {
                    Ok(input.as_thing(id))
                },
                _ => if self.holds(m.thing_id()) {
                    Ok(m.result(self.things[self.index_of(m.thing_id())]))
                } else {
                    Err(ErrorView::NotFound)
                },
            },
        }
    }

    /// The state once the write that a mutation asks for has been attempted
    /// and before any event is appended: where the write succeeds, the thing
    /// is added at the end or replaced where it stands.
    pub open spec fn with_written(self, m: Mutation) -> Records {
        match self.written(m) {
            Err(_) => self,
            Ok(t) => Records {
                things: if m is Create {
                    self.things.push(t)
                } else {
                    self.things.update(self.index_of(m.thing_id()), t)
                },
                events: self.events,
            },
        }
    }

    /// The outcome of committing a mutation with the given stamp. The
    /// outcome is that of the write, unless the write would succeed and the
    /// log already holds an event with the stamp's identity: that is a
    /// storage fault.
    pub open spec fn outcome(self, m: Mutation, stamp: Stamp) -> Result<ThingView, ErrorView> {
        match self.written(m) {
            Err(e) => Err(e),
            Ok(t) => if self.logs(stamp.id) {
                Err(ErrorView::Sql("duplicate event identifier"@))
            } else {
                Ok(t)
            },
        }
    }

    /// The state after a mutation has been committed with the given stamp.
    /// Where the outcome is an error the state stays as it is: nothing is
    /// written and nothing is appended. Where it is a success, the thing is
    /// written and exactly one event is appended: the mutation's descriptor
    /// with the stamp's identity and the instant that the log assigns.
    pub open spec fn after(self, m: Mutation, stamp: Stamp) -> Records {
        match self.outcome(m, stamp) {
            Err(_) => self,
            Ok(_) => Records {
                things: self.with_written(m).things,
                events: self.events.push(self.recorded(m, stamp)),
            },
        }
    }

    /// Is this what committing the mutation with a freshly drawn stamp can
    /// lead to? The stamp is drawn at random and read from the clock, so the
    /// result and the next state are those of `outcome` and `after` for some
    /// fresh stamp. Whatever the clock read, the event that `after` appends
    /// bears the instant that the log assigns, which is not earlier than
    /// that of any event in the log.
    pub open spec fn commits(
        self,
        m: Mutation,
        result: Result<ThingView, ErrorView>,
        next: Records,
    ) -> bool {
        exists|stamp: Stamp|
            stamp.is_fresh() && result == self.outcome(m, stamp) && next == #[trigger] self.after(
                m,
                stamp,
            )
    }

    /// Is this what creating a thing from the input, under a freshly drawn
    /// identity and with a freshly drawn stamp, can lead to?
    pub open spec fn creates(
        self,
        input: ThingInput,
        result: Result<ThingView, ErrorView>,
        next: Records,
    ) -> bool {
        exists|id: u128, stamp: Stamp|
            is_random_id(id) && stamp.is_fresh() && result == self.outcome(
                Mutation::Create { id, input },
                stamp,
            ) && next == #[trigger] self.after(Mutation::Create { id, input }, stamp)
    }

    /// The events recorded under the given name, in the order of the log.
    pub open spec fn by_kind(self, kind: Seq<char>) -> Seq<EventView> {
        named(self.events, kind)
    }

    /// The events about the thing with the given identity, ordered by their
    /// instants.
    pub open spec fn history_of(self, thing_id: u128) -> Seq<EventView> {
        history(self.events, thing_id)
    }

    /// The instant that the log assigns is not earlier than the instant of
    /// the stamp and not earlier than the instant of any event in the log;
    /// it is the stamp's own instant where no event in the log is later.
    pub proof fn lemma_assigned_not_earlier(self, at: Timestamp)
        requires
            is_chronological(self.events),
        ensures
            at.ticks() <= self.assigned(at).ticks(),
            forall|k: int|
                0 <= k < self.events.len() ==> (#[trigger] self.events[k]).timestamp.ticks()
                    <= self.assigned(at).ticks(),
            (forall|k: int|
                0 <= k < self.events.len() ==> (#[trigger] self.events[k]).timestamp.ticks()
                    <= at.ticks()) ==> self.assigned(at) == at,
    {
        if self.events.len() > 0 {
            let last = self.events.len() - 1;
            assert forall|k: int| 0 <= k < self.events.len() implies (
            #[trigger] self.events[k]).timestamp.ticks() <= self.assigned(at).ticks() by {
                assert(self.events[k].timestamp.ticks() <= self.events[last].timestamp.ticks());
            }
            assert(self.events[last] == self.events.last());
        }
    }

    /// In a well-formed state the thing with a given identity stands at one
    /// position only.
    pub proof fn lemma_index_unique(self, id: u128, i: int)
        requires
            self.wf(),
            0 <= i < self.things.len(),
            self.things[i].id == id,
        ensures
            self.holds(id),
            self.index_of(id) == i,
            self.get(id) == Some(self.things[i]),
    {
        let j = self.index_of(id);
        assert(0 <= j < self.things.len() && self.things[j].id == id);
        if j < i {
            assert(self.things[j].id != self.things[i].id);
        } else if i < j {
            assert(self.things[i].id != self.things[j].id);
        }
    }

    /// A write leaves a well-formed state well-formed and removes no thing.
    /// Where it succeeds, the store holds the thing afterwards, in the state
    /// that the write returned.
    pub proof fn lemma_with_written_wf(self, m: Mutation)
        requires
            self.wf(),
        ensures
            self.with_written(m).wf(),
            forall|id: u128| self.holds(id) ==> self.with_written(m).holds(id),
            self.written(m) matches Ok(t) ==> t.id == m.thing_id() && t.is_valid()
                && self.with_written(m).get(t.id) == Some(t),
    {
        let next = self.with_written(m);
        match self.written(m) {
            Err(_) => {},
            Ok(t) => {
                let id = m.thing_id();
                if m is Create {
                    m.lemma_result_valid(t);
                    assert forall|i: int, j: int| 0 <= i < j < next.things.len() implies (
                    #[trigger] next.things[i]).id != (#[trigger] next.things[j]).id by {
                        if j == self.things.len() {
                            assert(self.things[i].id != id);
                        } else {
                            assert(self.things[i].id != self.things[j].id);
                        }
                    }
                    assert forall|id2: u128| self.holds(id2) implies next.holds(id2) by {
                        let i = self.index_of(id2);
                        assert(next.things[i].id == id2);
                    }
                    assert(next.things[self.things.len() as int].id == id);
                    next.lemma_index_unique(id, self.things.len() as int);
                } else {
                    let p = self.index_of(id);
                    assert(0 <= p < self.things.len() && self.things[p].id == id);
                    m.lemma_result_valid(self.things[p]);
                    assert forall|i: int, j: int| 0 <= i < j < next.things.len() implies (
                    #[trigger] next.things[i]).id != (#[trigger] next.things[j]).id by {
                        assert(self.things[i].id != self.things[j].id);
                    }
                    assert forall|id2: u128| self.holds(id2) implies next.holds(id2) by {
                        let i = self.index_of(id2);
                        assert(next.things[i].id == id2);
                    }
                    assert(next.things[p].id == id);
                    next.lemma_index_unique(id, p);
                }
                assert forall|k: int| 0 <= k < next.events.len() implies (
                #[trigger] next.events[k]).kind.len() > 0 && next.holds(
                    next.events[k].thing_id,
                ) by {
                    assert(self.holds(self.events[k].thing_id));
                }
                assert forall|k: int, l: int| 0 <= k < l < next.events.len() implies (
                #[trigger] next.events[k]).id != (#[trigger] next.events[l]).id by {
                    assert(self.events[k].id != self.events[l].id);
                }
            },
        }
    }

    /// The state with one more event at the end of the log.
    pub open spec fn with_event(self, event: EventView) -> Records {
        Records { things: self.things, events: self.events.push(event) }
    }

    /// An event may be appended to the log of a well-formed state if it has
    /// a name, is about a thing that the store holds, bears an identity that
    /// no logged event bears, and is not earlier than any logged event. The
    /// state is then well-formed again.
    pub proof fn lemma_with_event_wf(self, event: EventView)
        requires
            self.wf(),
            event.kind.len() > 0,
            self.holds(event.thing_id),
            !self.logs(event.id),
            forall|k: int|
                0 <= k < self.events.len() ==> (#[trigger] self.events[k]).timestamp.ticks()
                    <= event.timestamp.ticks(),
        ensures
            self.with_event(event).wf(),
    {
        let next = self.with_event(event);
        assert forall|k: int| 0 <= k < next.events.len() implies (
        #[trigger] next.events[k]).kind.len() > 0 && next.holds(next.events[k].thing_id) by {
            if k < self.events.len() {
                assert(self.events[k].kind.len() > 0);
                assert(self.holds(self.events[k].thing_id));
            }
        }
        assert forall|k: int, l: int| 0 <= k < l < next.events.len() implies (
        #[trigger] next.events[k]).id != (#[trigger] next.events[l]).id by {
            if l < self.events.len() {
                assert(self.events[k].id != self.events[l].id);
            } else {
                assert(self.events[k].id != event.id);
            }
        }
        assert forall|k: int, l: int| 0 <= k <= l < next.events.len() implies (
        #[trigger] next.events[k]).timestamp.ticks() <= (
        #[trigger] next.events[l]).timestamp.ticks() by {
            if l < self.events.len() {
                assert(self.events[k].timestamp.ticks() <= self.events[l].timestamp.ticks());
            } else if k < self.events.len() {
                assert(self.events[k].timestamp.ticks() <= event.timestamp.ticks());
            }
        }
    }

    /// Every mutation leaves a well-formed state well-formed and removes no
    /// thing from it.
    pub proof fn lemma_after_wf(self, m: Mutation, stamp: Stamp)
        requires
            self.wf(),
        ensures
            self.after(m, stamp).wf(),
            forall|id: u128| self.holds(id) ==> self.after(m, stamp).holds(id),
    {
        let mid = self.with_written(m);
        let next = self.after(m, stamp);
        self.lemma_with_written_wf(m);
        match self.outcome(m, stamp) {
            Err(_) => {},
            Ok(t) => {
                m.lemma_tag_not_empty();
                self.lemma_assigned_not_earlier(stamp.at);
                assert(mid.holds(t.id));
                assert(!mid.logs(stamp.id)) by {
                    if mid.logs(stamp.id) {
                        let k = choose|k: int|
                            0 <= k < mid.events.len() && (#[trigger] mid.events[k]).id == stamp.id;
                        assert(self.events[k].id == stamp.id);
                    }
                }
                mid.lemma_with_event_wf(self.recorded(m, stamp));
                assert(next == mid.with_event(self.recorded(m, stamp)));
                assert forall|id: u128| mid.holds(id) implies next.holds(id) by {
                    let i = mid.index_of(id);
                    assert(next.things[i].id == id);
                }
            },
        }
    }

    /// A mutation changes no thing but its own: every other identity is held
    /// after it exactly if it was held before, with the same thing.
    pub proof fn lemma_others_untouched(self, m: Mutation, stamp: Stamp, other: u128)
        requires
            self.wf(),
            other != m.thing_id(),
        ensures
            self.after(m, stamp).get(other) == self.get(other),
    {
        let next = self.after(m, stamp);
        self.lemma_after_wf(m, stamp);
        if self.outcome(m, stamp) is Ok {
            if self.holds(other) {
                let i = self.index_of(other);
                assert(next.things[i] == self.things[i]);
                next.lemma_index_unique(other, i);
            } else if next.holds(other) {
                let i = next.index_of(other);
                assert(next.things[i].id == other);
                if i < self.things.len() {
                    assert(self.things[i].id == other);
                }
            }
        }
    }

    /// A valid creation succeeds where the identity drawn for the thing is
    /// not that of a stored thing and the identity drawn for the event is
    /// not that of a logged event; the store then holds, under the thing's
    /// identity, a thing with exactly the fields of the input.
    pub proof fn lemma_create_then_get(self, id: u128, input: ThingInput, stamp: Stamp)
        requires
            self.wf(),
            input.valid(),
            !self.holds(id),
            !self.logs(stamp.id),
        ensures
            self.outcome(Mutation::Create { id, input }, stamp) == Ok::<ThingView, ErrorView>(
                input.as_thing(id),
            ),
            self.after(Mutation::Create { id, input }, stamp).get(id) == Some(input.as_thing(id)),
    {
        self.lemma_with_written_wf(Mutation::Create { id, input });
    }

    /// A creation from an invalid input fails with `InvalidInput`, and
    /// neither a thing nor an event is stored.
    pub proof fn lemma_invalid_create(self, id: u128, input: ThingInput, stamp: Stamp)
        requires
            !input.valid(),
        ensures
            self.outcome(Mutation::Create { id, input }, stamp) == Err::<ThingView, ErrorView>(
                ErrorView::InvalidInput,
            ),
            self.after(Mutation::Create { id, input }, stamp) == self,
    {
    }

    /// A mutation that fails validation is refused with its validation
    /// error, whatever the store holds.
    pub proof fn lemma_rejected(self, m: Mutation, stamp: Stamp)
        requires
            m.rejection() is Some,
        ensures
            self.outcome(m, stamp) == Err::<ThingView, ErrorView>(m.rejection()->Some_0),
            m.rejection()->Some_0.is_validation(),
            self.after(m, stamp) == self,
    {
    }

    /// An update that passes validation and names a thing that the store
    /// does not hold is refused with `NotFound`.
    pub proof fn lemma_update_of_unknown_thing(self, m: Mutation, stamp: Stamp)
        requires
            !(m is Create),
            m.rejection() is None,
            !self.holds(m.thing_id()),
        ensures
            self.outcome(m, stamp) == Err::<ThingView, ErrorView>(ErrorView::NotFound),
            self.after(m, stamp) == self,
    {
    }

    /// An update that passes validation succeeds where the store holds the
    /// thing and the identity drawn for the event is not that of a logged
    /// event: exactly the field that the update names is replaced.
    pub proof fn lemma_update_succeeds(self, m: Mutation, stamp: Stamp)
        requires
            self.wf(),
            !(m is Create),
            m.rejection() is None,
            self.holds(m.thing_id()),
            !self.logs(stamp.id),
        ensures
            self.outcome(m, stamp) == Ok::<ThingView, ErrorView>(
                m.result(self.get(m.thing_id())->Some_0),
            ),
            self.after(m, stamp).get(m.thing_id()) == Some(
                m.result(self.get(m.thing_id())->Some_0),
            ),
    {
        self.lemma_with_written_wf(m);
    }

    /// A mutation whose write fails leaves the store and the log as they
    /// were: no event about the attempt is appended. The same holds of a
    /// mutation that fails for any other reason.
    pub proof fn lemma_failed_write_logs_nothing(self, m: Mutation, stamp: Stamp)
        requires
            self.written(m) is Err || self.outcome(m, stamp) is Err,
        ensures
            self.outcome(m, stamp) is Err,
            self.written(m) is Err ==> self.outcome(m, stamp) == self.written(m),
            self.after(m, stamp) == self,
            self.after(m, stamp).events.len() == self.events.len(),
    {
    }

    /// The log only grows: whatever a mutation does, the events that the log
    /// held stay where they are, unchanged.
    pub proof fn lemma_log_append_only(self, m: Mutation, stamp: Stamp)
        ensures
            self.events.is_prefix_of(self.after(m, stamp).events),
            self.after(m, stamp).events.len() <= self.events.len() + 1,
    {
    }

    /// A mutation that succeeds appends exactly one event, which is about
    /// the thing, bears the mutation's name, the stamp's identity and the
    /// instant that the log assigns; the store then holds the thing in its
    /// new state. No event of the log is later than the new one.
    pub proof fn lemma_success_logs_one_event(self, m: Mutation, stamp: Stamp)
        requires
            self.wf(),
            self.outcome(m, stamp) is Ok,
        ensures
            ({
                let thing = self.outcome(m, stamp)->Ok_0;
                let next = self.after(m, stamp);
                let event = self.recorded(m, stamp);
                &&& thing.id == m.thing_id()
                &&& next.get(thing.id) == Some(thing)
                &&& next.events == self.events.push(event)
                &&& event.thing_id == thing.id
                &&& event.kind == m.tag()
                &&& event.id == stamp.id
                &&& event.timestamp == self.assigned(stamp.at)
                &&& stamp.at.ticks() <= event.timestamp.ticks()
                &&& forall|k: int|
                    0 <= k < self.events.len() ==> (#[trigger] self.events[k]).timestamp.ticks()
                        <= event.timestamp.ticks()
            }),
    {
        let thing = self.outcome(m, stamp)->Ok_0;
        let next = self.after(m, stamp);
        self.lemma_with_written_wf(m);
        self.lemma_after_wf(m, stamp);
        self.lemma_assigned_not_earlier(stamp.at);
        let mid = self.with_written(m);
        let p = mid.index_of(thing.id);
        assert(mid.holds(thing.id));
        assert(next.things[p] == mid.things[p]);
        next.lemma_index_unique(thing.id, p);
    }

    /// After a mutation that succeeds, the history of its thing is what it
    /// was with the new event behind it, so that no event of the history is
    /// later than the new one; and the history of every other thing is as
    /// it was.
    pub proof fn lemma_success_extends_history(self, m: Mutation, stamp: Stamp)
        requires
            self.wf(),
            self.outcome(m, stamp) is Ok,
        ensures
            ({
                let next = self.after(m, stamp);
                let event = self.recorded(m, stamp);
                let id = m.thing_id();
                &&& next.history_of(id) == self.history_of(id).push(event)
                &&& forall|k: int|
                    0 <= k < next.history_of(id).len() ==> (#[trigger] next.history_of(
                        id,
                    )[k]).timestamp.ticks() <= event.timestamp.ticks()
                &&& forall|other: u128| other != id ==> next.history_of(other) == self.history_of(other)
            }),
    {
        let next = self.after(m, stamp);
        let event = self.recorded(m, stamp);
        let id = m.thing_id();
        self.lemma_after_wf(m, stamp);
        assert(next.events.drop_last() =~= self.events);
        assert(next.events.last() == event);
        lemma_history_in_log_order(self.events, id);
        lemma_history_in_log_order(next.events, id);
        self.events.lemma_filter_push(event, |e: EventView| e.thing_id == id);
        let grown = next.history_of(id);
        lemma_history_chronological(next.events, id);
        assert(grown == self.history_of(id).push(event));
        assert forall|k: int| 0 <= k < grown.len() implies (#[trigger] grown[k]).timestamp.ticks()
            <= event.timestamp.ticks() by {
            assert(grown[grown.len() - 1] == event);
            assert(grown[k].timestamp.ticks() <= grown[grown.len() - 1].timestamp.ticks());
        }
    }

    /// In a well-formed state the history of a thing is the events about it
    /// in the order of the log, and it is in the order of time.
    pub proof fn lemma_history_in_log_order(self, thing_id: u128)
        requires
            self.wf(),
        ensures
            self.history_of(thing_id) == about(self.events, thing_id),
            is_chronological(self.history_of(thing_id)),
    {
        lemma_history_in_log_order(self.events, thing_id);
        lemma_history_chronological(self.events, thing_id);
    }
}

} // verus!
