//! What can be read from the event log: the events of one kind, and the
//! history of one thing in the order of time.

use crate::data::event::EventView;
use crate::data::types::Timestamp;
use vstd::prelude::*;

verus! {

/// The events recorded under the given name, in the order of the log.
pub open spec fn named(events: Seq<EventView>, kind: Seq<char>) -> Seq<EventView> {
    events.filter(|e: EventView| e.kind == kind)
}

/// The events about the given thing, in the order of the log.
pub open spec fn about(events: Seq<EventView>, thing_id: u128) -> Seq<EventView> {
    events.filter(|e: EventView| e.thing_id == thing_id)
}

/// No event of the sequence is later than an event that follows it.
pub open spec fn is_chronological(events: Seq<EventView>) -> bool {
    forall|i: int, j: int|
        0 <= i <= j < events.len() ==> (#[trigger] events[i]).timestamp.ticks() <= (
        #[trigger] events[j]).timestamp.ticks()
}

/// Where an event of the instant `at` goes into `events`: behind the last
/// event that is not later than `at`, which is the front if there is none.
/// An event therefore goes behind those of its own instant.
pub open spec fn slot(events: Seq<EventView>, at: Timestamp) -> int
    decreases events.len(),
{
    if events.len() == 0 || events.last().timestamp.ticks() <= at.ticks() {
        events.len() as int
    } else {
        slot(events.drop_last(), at)
    }
}

/// The history of a thing: the events of the log that are about it, ordered
/// by their instants. Events of one instant keep the order of the log.
pub open spec fn history(events: Seq<EventView>, thing_id: u128) -> Seq<EventView>
    decreases events.len(),
{
    if events.len() == 0 {
        Seq::empty()
    } else {
        let earlier = history(events.drop_last(), thing_id);
        let e = events.last();
        if e.thing_id == thing_id {
            earlier.insert(slot(earlier, e.timestamp), e)
        } else {
            earlier
        }
    }
}

/// The slot lies within the sequence or at its end, every event from the
/// slot on is later than `at`, and the event before the slot is not.
pub proof fn lemma_slot(events: Seq<EventView>, at: Timestamp)
    ensures
        0 <= slot(events, at) <= events.len(),
        forall|k: int|
            slot(events, at) <= k < events.len() ==> (#[trigger] events[k]).timestamp.ticks()
                > at.ticks(),
        slot(events, at) > 0 ==> events[slot(events, at) - 1].timestamp.ticks() <= at.ticks(),
    decreases events.len(),
{
    if events.len() == 0 || events.last().timestamp.ticks() <= at.ticks() {
    } else {
        lemma_slot(events.drop_last(), at);
        let p = slot(events.drop_last(), at);
        assert forall|k: int| p <= k < events.len() implies (
        #[trigger] events[k]).timestamp.ticks() > at.ticks() by {
            if k < events.len() - 1 {
                assert(events.drop_last()[k] == events[k]);
            }
        }
        if p > 0 {
            assert(events.drop_last()[p - 1] == events[p - 1]);
        }
    }
}

/// The slot is the one position with the properties of `lemma_slot`.
pub proof fn lemma_slot_unique(events: Seq<EventView>, at: Timestamp, p: int)
    requires
        0 <= p <= events.len(),
        forall|k: int| p <= k < events.len() ==> (#[trigger] events[k]).timestamp.ticks()
            > at.ticks(),
        p > 0 ==> events[p - 1].timestamp.ticks() <= at.ticks(),
    ensures
        slot(events, at) == p,
    decreases events.len(),
{
    if events.len() == 0 {
    } else if events.last().timestamp.ticks() <= at.ticks() {
        if p < events.len() {
            assert(events[events.len() - 1].timestamp.ticks() > at.ticks());
        }
    } else {
        assert(p < events.len());
        let rest = events.drop_last();
        assert forall|k: int| p <= k < rest.len() implies (#[trigger] rest[k]).timestamp.ticks()
            > at.ticks() by {
            assert(rest[k] == events[k]);
        }
        if p > 0 {
            assert(rest[p - 1] == events[p - 1]);
        }
        lemma_slot_unique(rest, at, p);
    }
}

/// An event put into its slot keeps a chronological sequence chronological.
pub proof fn lemma_insert_chronological(events: Seq<EventView>, e: EventView)
    requires
        is_chronological(events),
    ensures
        is_chronological(events.insert(slot(events, e.timestamp), e)),
{
    let p = slot(events, e.timestamp);
    let next = events.insert(p, e);
    lemma_slot(events, e.timestamp);
    events.insert_ensures(p, e);
    assert forall|i: int, j: int| 0 <= i <= j < next.len() implies (
    #[trigger] next[i]).timestamp.ticks() <= (#[trigger] next[j]).timestamp.ticks() by {
        let a = if i < p {
            events[i]
        } else if i == p {
            e
        } else {
            events[i - 1]
        };
        let b = if j < p {
            events[j]
        } else if j == p {
            e
        } else {
            events[j - 1]
        };
        assert(next[i] == a);
        assert(next[j] == b);
        if i < p {
            assert(events[i].timestamp.ticks() <= events[p - 1].timestamp.ticks());
        }
        if j > p {
            assert(events[j - 1].timestamp.ticks() > e.timestamp.ticks());
        }
    }
}

/// The history of a thing is in the order of time: no event in it is later
/// than an event that follows it.
pub proof fn lemma_history_chronological(events: Seq<EventView>, thing_id: u128)
    ensures
        is_chronological(history(events, thing_id)),
    decreases events.len(),
{
    if events.len() > 0 {
        lemma_history_chronological(events.drop_last(), thing_id);
        if events.last().thing_id == thing_id {
            lemma_insert_chronological(history(events.drop_last(), thing_id), events.last());
        }
    }
}

/// In a chronological log the history of a thing is the events about it in
/// the order of the log.
pub proof fn lemma_history_in_log_order(events: Seq<EventView>, thing_id: u128)
    requires
        is_chronological(events),
    ensures
        history(events, thing_id) == about(events, thing_id),
    decreases events.len(),
{
    let pred = |e: EventView| e.thing_id == thing_id;
    if events.len() == 0 {
        reveal(Seq::filter);
        assert(about(events, thing_id) =~= Seq::<EventView>::empty());
    } else {
        let rest = events.drop_last();
        let e = events.last();
        assert forall|i: int, j: int| 0 <= i <= j < rest.len() implies (
        #[trigger] rest[i]).timestamp.ticks() <= (#[trigger] rest[j]).timestamp.ticks() by {
            assert(events[i].timestamp.ticks() <= events[j].timestamp.ticks());
        }
        lemma_history_in_log_order(rest, thing_id);
        assert(events =~= rest.push(e));
        rest.lemma_filter_push(e, pred);
        if e.thing_id == thing_id {
            let earlier = about(rest, thing_id);
            if earlier.len() > 0 {
                let last = earlier.last();
                assert(earlier.contains(last));
                rest.lemma_filter_contains_rev(pred, last);
                let j = choose|j: int| 0 <= j < rest.len() && rest[j] == last;
                assert(events[j].timestamp.ticks() <= events[events.len() - 1].timestamp.ticks());
            }
            assert(slot(earlier, e.timestamp) == earlier.len());
            assert(earlier.insert(earlier.len() as int, e) =~= earlier.push(e));
        }
    }
}

/// The history of a thing holds exactly the events of the log that are about
/// the thing, each as often as the log holds it.
pub proof fn lemma_history_complete(events: Seq<EventView>, thing_id: u128)
    ensures
        history(events, thing_id).to_multiset() == about(events, thing_id).to_multiset(),
        history(events, thing_id).len() == about(events, thing_id).len(),
    decreases events.len(),
{
    broadcast use vstd::seq_lib::to_multiset_len;

    let pred = |e: EventView| e.thing_id == thing_id;
    if events.len() == 0 {
        reveal(Seq::filter);
        assert(about(events, thing_id) =~= Seq::<EventView>::empty());
    } else {
        let rest = events.drop_last();
        let e = events.last();
        lemma_history_complete(rest, thing_id);
        assert(events =~= rest.push(e));
        rest.lemma_filter_push(e, pred);
        if e.thing_id == thing_id {
            let earlier = history(rest, thing_id);
            lemma_slot(earlier, e.timestamp);
            vstd::seq_lib::to_multiset_insert(earlier, slot(earlier, e.timestamp), e);
            vstd::seq_lib::to_multiset_build(about(rest, thing_id), e);
        }
    }
}

/// Every event in the history of a thing is about that thing and stands in
/// the log, and every event of the log that is about the thing stands in its
/// history.
pub proof fn lemma_history_members(events: Seq<EventView>, thing_id: u128)
    ensures
        forall|e: EventView|
            history(events, thing_id).contains(e) <==> events.contains(e) && e.thing_id
                == thing_id,
{
    broadcast use vstd::seq_lib::to_multiset_contains;

    let pred = |e: EventView| e.thing_id == thing_id;
    lemma_history_complete(events, thing_id);
    assert forall|e: EventView|
        history(events, thing_id).contains(e) <==> events.contains(e) && e.thing_id
            == thing_id by {
        let h = history(events, thing_id);
        let f = about(events, thing_id);
        assert(h.contains(e) <==> h.to_multiset().count(e) > 0);
        assert(f.contains(e) <==> f.to_multiset().count(e) > 0);
        if f.contains(e) {
            let i = choose|i: int| 0 <= i < f.len() && f[i] == e;
            events.lemma_filter_pred(pred, i);
            events.lemma_filter_contains_rev(pred, e);
        }
        if events.contains(e) && e.thing_id == thing_id {
            let i = choose|i: int| 0 <= i < events.len() && events[i] == e;
            events.lemma_filter_contains(pred, i);
        }
    }
}

} // verus!
