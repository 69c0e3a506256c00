//! Handlers of events, and the executor that hands every event of a stream to
//! every handler.
//!
//! The executor works through a stream strictly in the order in which the
//! events are pulled. For one event it calls the handlers one after another,
//! in the order in which they were registered, and calls every one of them
//! whatever the others returned. The next event is taken up only when all
//! handlers have returned for the one before. A handler that fails is
//! reported and never called again for the same event.
//!
//! A request to cancel is honoured between two events: the dispatch of an
//! event that has begun is always completed.

use crate::data::event::{events_view, Event, EventView};
use crate::error::{Error, ErrorView};
use vstd::prelude::*;

verus! {

/// The capability to process one event. An implementation may fail, and the
/// executor promises nothing about what an implementation does.
pub trait Handler {
    /// What the handler may return for an event. An implementation says of
    /// itself as much or as little as it likes; one that says nothing allows
    /// every outcome for every event.
    open spec fn may_return(&self, event: EventView, outcome: Result<(), ErrorView>) -> bool {
        true
    }

    /// Processes the event.
    fn handle(&self, event: &Event) -> (r: Result<(), Error>)
        ensures
            self.may_return(event@, outcome_view(r)),
    ;
}

/// The failure of one handler for one event: the handler's position among
/// the registered handlers, and the error it returned.
#[derive(Debug)]
pub struct HandlerFailure {
    pub handler: usize,
    pub error: Error,
}

/// A handler's failure as a mathematical value.
pub struct FailedView {
    pub handler: int,
    pub error: ErrorView,
}

impl View for HandlerFailure {
    type V = FailedView;

    open spec fn view(&self) -> FailedView {
        FailedView { handler: self.handler as int, error: self.error@ }
    }
}

/// What the handlers did with one event: the event's identity and the
/// failures, in the order of the handlers. No failure means success.
#[derive(Debug)]
pub struct EventReport {
    pub event_id: u128,
    pub failures: Vec<HandlerFailure>,
}

/// A report as a mathematical value.
pub struct ReportView {
    pub event_id: u128,
    pub failures: Seq<FailedView>,
}

impl View for EventReport {
    type V = ReportView;

    open spec fn view(&self) -> ReportView {
        ReportView { event_id: self.event_id, failures: failures_view(self.failures@) }
    }
}

impl EventReport {
    /// Did every handler succeed?
    pub fn is_success(&self) -> (r: bool)
        ensures
            r == (self@.failures.len() == 0),
    {
        self.failures.len() == 0
    }
}

/// The failures of a sequence as mathematical values.
pub open spec fn failures_view(failures: Seq<HandlerFailure>) -> Seq<FailedView> {
    failures.map_values(|f: HandlerFailure| f@)
}

/// The reports of a sequence as mathematical values.
pub open spec fn reports_view(reports: Seq<EventReport>) -> Seq<ReportView> {
    reports.map_values(|r: EventReport| r@)
}

/// The failures that the dispatch of one event ended with, as mathematical
/// values: none where it ended with `Ok`.
pub open spec fn batch_view(r: Result<(), Vec<HandlerFailure>>) -> Seq<FailedView> {
    match r {
        Ok(()) => Seq::empty(),
        Err(failures) => failures_view(failures@),
    }
}

/// What one handler returned, as a mathematical value.
pub open spec fn outcome_view(outcome: Result<(), Error>) -> Result<(), ErrorView> {
    match outcome {
        Ok(()) => Ok(()),
        Err(e) => Err(e@),
    }
}

/// What the handlers returned, as mathematical values.
pub open spec fn outcomes_view(outcomes: Seq<Result<(), Error>>) -> Seq<Result<(), ErrorView>> {
    outcomes.map_values(|o: Result<(), Error>| outcome_view(o))
}

/// Are these the returns of the handlers for the event, one for each handler
/// and in the order of the handlers? Entry `j` is something that handler `j`
/// may return for this very event.
pub open spec fn returned_by(
    handlers: Seq<Box<dyn Handler>>,
    event: EventView,
    outcomes: Seq<Result<(), ErrorView>>,
) -> bool {
    &&& outcomes.len() == handlers.len()
    &&& forall|j: int|
        0 <= j < outcomes.len() ==> (#[trigger] handlers[j]).may_return(event, outcomes[j])
}

/// The failures among the outcomes of the handlers for one event, where
/// `outcomes[i]` is what handler `i` returned: one entry for every handler
/// that failed, in the order of the handlers.
pub open spec fn failures_of(outcomes: Seq<Result<(), ErrorView>>) -> Seq<FailedView>
    decreases outcomes.len(),
{
    if outcomes.len() == 0 {
        Seq::empty()
    } else {
        let earlier = failures_of(outcomes.drop_last());
        match outcomes.last() {
            Ok(()) => earlier,
            Err(error) => earlier.push(FailedView { handler: outcomes.len() - 1, error }),
        }
    }
}

/// The reports of a run over `events`, where `outcomes[i][j]` is what handler
/// `j` returned for event `i`: one report for every event, in the order of
/// the events.
pub open spec fn reports_of(
    events: Seq<EventView>,
    outcomes: Seq<Seq<Result<(), ErrorView>>>,
) -> Seq<ReportView> {
    Seq::new(
        events.len(),
        |i: int| ReportView { event_id: events[i].id, failures: failures_of(outcomes[i]) },
    )
}

/// Collects the failures among the outcomes of the handlers for one event,
/// where `outcomes[i]` is what handler `i` returned.
pub fn collect_failures(outcomes: &Vec<Result<(), Error>>) -> (r: Vec<HandlerFailure>)
    ensures
        failures_view(r@) == failures_of(outcomes_view(outcomes@)),
{
    let mut failures: Vec<HandlerFailure> = Vec::new();
    let mut i: usize = 0;
    proof {
        assert(outcomes_view(outcomes@).take(0) =~= Seq::<Result<(), ErrorView>>::empty());
    }
    while i < outcomes.len()
        invariant
            i <= outcomes@.len(),
            failures_view(failures@) == failures_of(outcomes_view(outcomes@).take(i as int)),
        decreases outcomes@.len() - i,
    {
        proof {
            let all = outcomes_view(outcomes@);
            assert(all.take(i + 1).drop_last() =~= all.take(i as int));
            assert(all.take(i + 1).last() == outcome_view(outcomes@[i as int]));
        }
        match &outcomes[i] {
            Ok(()) => {},
            Err(error) => {
                let failure = HandlerFailure { handler: i, error: error.clone() };
                proof {
                    assert(failures_view(failures@.push(failure)) =~= failures_view(
                        failures@,
                    ).push(failure@));
                }
                failures.push(failure);
            },
        }
        i += 1;
    }
    proof {
        let all = outcomes_view(outcomes@);
        assert(all.take(i as int) =~= all);
    }
    failures
}

/// The report for one event, given what each handler returned for it.
pub fn report_for(event: &Event, outcomes: &Vec<Result<(), Error>>) -> (r: EventReport)
    ensures
        r@ == (ReportView {
            event_id: event.id,
            failures: failures_of(outcomes_view(outcomes@)),
        }),
{
    EventReport { event_id: event.id, failures: collect_failures(outcomes) }
}

/// The phases that an executor passes through.
#[derive(Clone, Copy, Debug, PartialEq, Eq, Structural)]
pub enum Phase {
    /// No stream has been given yet.
    Idle,
    /// Events are pulled from the stream and dispatched.
    Running,
    /// The stream has ended; dispatches that began are being completed.
    Draining,
    /// All work is done. No event is dispatched any more.
    Stopped,
}

/// What can happen to an executor.
#[derive(Clone, Copy, Debug, PartialEq, Eq, Structural)]
pub enum Signal {
    /// A stream is given to consume.
    Start,
    /// The stream says that it holds no further event.
    EndOfData,
    /// Every dispatch that began has been completed.
    Drained,
    /// The run is to end without consuming the rest of the stream.
    Cancel,
}

impl Phase {
    /// The phase that follows this one on a signal. A signal that has no
    /// meaning in a phase leaves the phase as it is. There is no way back to
    /// an earlier phase, and no way out of `Stopped`.
    pub open spec fn next(self, signal: Signal) -> Phase {
        match (self, signal) {
            (Phase::Idle, Signal::Start) => Phase::Running,
            (Phase::Running, Signal::EndOfData) => Phase::Draining,
            (Phase::Draining, Signal::Drained) => Phase::Stopped,
            (_, Signal::Cancel) => Phase::Stopped,
            _ => self,
        }
    }

    /// The place of the phase in the order Idle, Running, Draining, Stopped.
    pub open spec fn rank(self) -> int {
        match self {
            Phase::Idle => 0,
            Phase::Running => 1,
            Phase::Draining => 2,
            Phase::Stopped => 3,
        }
    }

    /// The phase that follows this one on a signal.
    pub fn after(self, signal: Signal) -> (r: Phase)
        ensures
            r == self.next(signal),
    {
        match (self, signal) {
            (Phase::Idle, Signal::Start) => Phase::Running,
            (Phase::Running, Signal::EndOfData) => Phase::Draining,
            (Phase::Draining, Signal::Drained) => Phase::Stopped,
            (_, Signal::Cancel) => Phase::Stopped,
            _ => self,
        }
    }

    /// No signal takes an executor back to an earlier phase, and a phase
    /// changes only to the one behind it or, on `Cancel`, to `Stopped`.
    pub proof fn lemma_next_advances(self, signal: Signal)
        ensures
            self.rank() <= self.next(signal).rank(),
            self.next(signal) == self || self.next(signal).rank() == self.rank() + 1
                || self.next(signal) == Phase::Stopped,
            self == Phase::Stopped ==> self.next(signal) == Phase::Stopped,
    {
    }
}

/// Hands the events of a stream to a fixed set of handlers.
pub struct Executor {
    handlers: Vec<Box<dyn Handler>>,
    phase: Phase,
}

impl Executor {
    /// The registered handlers, in the order of registration.
    pub closed spec fn registered(&self) -> Seq<Box<dyn Handler>> {
        self.handlers@
    }

    /// The number of registered handlers.
    pub open spec fn handler_count(&self) -> nat {
        self.registered().len()
    }

    /// The phase that the executor is in.
    pub closed spec fn current(&self) -> Phase {
        self.phase
    }

    /// An idle executor with the given handlers. The set of handlers stays
    /// as it is for the executor's lifetime.
    pub fn new(handlers: Vec<Box<dyn Handler>>) -> (r: Self)
        ensures
            r.registered() == handlers@,
            r.current() == Phase::Idle,
    {
        Self { handlers, phase: Phase::Idle }
    }

    /// The phase that the executor is in.
    pub fn phase(&self) -> (r: Phase)
        ensures
            r == self.current(),
    {
        self.phase
    }

    /// Tells the executor what happened, and moves it to the phase that
    /// follows.
    pub fn signal(&mut self, signal: Signal)
        ensures
            final(self).current() == old(self).current().next(signal),
            final(self).registered() == old(self).registered(),
    {
        self.phase = self.phase.after(signal);
    }

    /// Calls every handler with the event, in the order of registration,
    /// whatever the handlers before it returned, and gathers what each
    /// returned: entry `i` of the result is the return of handler `i` for
    /// this event.
    fn call_all(&self, event: &Event) -> (r: Vec<Result<(), Error>>)
        ensures
            returned_by(self.registered(), event@, outcomes_view(r@)),
    {
        let mut outcomes: Vec<Result<(), Error>> = Vec::new();
        let mut i: usize = 0;
        while i < self.handlers.len()
            invariant
                i <= self.handlers@.len(),
                outcomes@.len() == i,
                forall|j: int|
                    0 <= j < i ==> (#[trigger] self.handlers@[j]).may_return(
                        event@,
                        outcome_view(outcomes@[j]),
                    ),
            decreases self.handlers@.len() - i,
        {
            outcomes.push(self.handlers[i].handle(event));
            i += 1;
        }
        outcomes
    }

    /// Calls every handler with the event and collects the failures. The
    /// result is `Ok` if no handler failed, and otherwise the failures in the
    /// order of the handlers.
    ///
    /// What a handler returns is the handler's own affair. The result is
    /// that of `collect_failures` for the returns of the registered
    /// handlers for this event, one for each handler and in their order.
    pub fn handle(&self, event: &Event) -> (r: Result<(), Vec<HandlerFailure>>)
        ensures
            r matches Err(failures) ==> failures@.len() > 0,
            exists|outcomes: Seq<Result<(), ErrorView>>|
                returned_by(self.registered(), event@, outcomes) && batch_view(r)
                    == #[trigger] failures_of(outcomes),
    {
        let outcomes = self.call_all(event);
        let failures = collect_failures(&outcomes);
        if failures.len() == 0 {
            assert(failures_view(failures@) =~= Seq::<FailedView>::empty());
            Ok(())
        } else {
            Err(failures)
        }
    }

    /// Dispatches one event if the executor is running: calls every handler
    /// and reports the failures, as `report_for` does for the returns of the
    /// registered handlers for this event. In any other phase no handler is
    /// called and there is no report.
    pub fn dispatch(&self, event: &Event) -> (r: Option<EventReport>)
        ensures
            (r is Some) == (self.current() == Phase::Running),
            r matches Some(report) ==> report.event_id == event.id && exists|
                outcomes: Seq<Result<(), ErrorView>>,
            |
                returned_by(self.registered(), event@, outcomes) && report@.failures
                    == #[trigger] failures_of(outcomes),
    {
        match self.phase {
            Phase::Running => {
                let outcomes = self.call_all(event);
                Some(report_for(event, &outcomes))
            },
            _ => None,
        }
    }

    /// Runs an idle executor over a stream that holds the given events and
    /// then ends: dispatches the events in their order, one after another,
    /// and returns one report for each, in the same order. The report for an
    /// event is that of `report_for` for the returns of the registered
    /// handlers for that event. The executor is stopped afterwards.
    ///
    /// A failing handler stops neither the other handlers nor the stream. An
    /// executor that is not idle consumes nothing and stays as it is.
    pub fn run(&mut self, events: &Vec<Event>) -> (r: Vec<EventReport>)
        ensures
            final(self).registered() == old(self).registered(),
            old(self).current() != Phase::Idle ==> r@.len() == 0 && final(self).current() == old(
                self,
            ).current(),
            old(self).current() == Phase::Idle ==> r@.len() == events@.len() && forall|i: int|
                0 <= i < r@.len() ==> (#[trigger] r@[i]).event_id == events@[i].id,
            old(self).current() == Phase::Idle ==> final(self).current() == Phase::Stopped
                && exists|outcomes: Seq<Seq<Result<(), ErrorView>>>|
                {
                    &&& outcomes.len() == events@.len()
                    &&& forall|i: int|
                        0 <= i < outcomes.len() ==> returned_by(
                            old(self).registered(),
                            events_view(events@)[i],
                            #[trigger] outcomes[i],
                        )
                    &&& reports_view(r@) == #[trigger] reports_of(events_view(events@), outcomes)
                },
    {
        let mut reports: Vec<EventReport> = Vec::new();
        if self.phase != Phase::Idle {
            return reports;
        }
        self.signal(Signal::Start);
        let ghost mut outcomes: Seq<Seq<Result<(), ErrorView>>> = Seq::empty();
        let mut i: usize = 0;
        while i < events.len()
            invariant
                i <= events@.len(),
                self.current() == Phase::Running,
                self.registered() == old(self).registered(),
                outcomes.len() == i,
                reports@.len() == i,
                forall|k: int|
                    0 <= k < outcomes.len() ==> returned_by(
                        self.registered(),
                        events@[k]@,
                        #[trigger] outcomes[k],
                    ),
                forall|k: int|
                    0 <= k < i ==> (#[trigger] reports@[k])@ == (ReportView {
                        event_id: events@[k].id,
                        failures: failures_of(outcomes[k]),
                    }),
            decreases events@.len() - i,
        {
            match self.dispatch(&events[i]) {
                Some(report) => {
                    proof {
                        let row = choose|row: Seq<Result<(), ErrorView>>|
                            returned_by(self.registered(), events@[i as int]@, row)
                                && report@.failures == #[trigger] failures_of(row);
                        outcomes = outcomes.push(row);
                    }
                    reports.push(report);
                },
                None => {},
            }
            i += 1;
        }
        self.signal(Signal::EndOfData);
        self.signal(Signal::Drained);
        proof {
            assert(reports_view(reports@) =~= reports_of(events_view(events@), outcomes));
        }
        reports
    }
}

/// The failures name handlers that failed, each with the error that the
/// handler returned, in ascending order of the handlers; and every handler
/// that failed is named.
pub proof fn lemma_failures_of(outcomes: Seq<Result<(), ErrorView>>)
    ensures
        failures_of(outcomes).len() <= outcomes.len(),
        forall|k: int|
            0 <= k < failures_of(outcomes).len() ==> {
                let f = #[trigger] failures_of(outcomes)[k];
                0 <= f.handler < outcomes.len() && outcomes[f.handler] == Err::<(), ErrorView>(
                    f.error,
                )
            },
        forall|k: int, l: int|
            0 <= k < l < failures_of(outcomes).len() ==> (#[trigger] failures_of(
                outcomes,
            )[k]).handler < (#[trigger] failures_of(outcomes)[l]).handler,
        forall|j: int|
            0 <= j < outcomes.len() && (#[trigger] outcomes[j]) is Err ==> exists|k: int|
                0 <= k < failures_of(outcomes).len() && (#[trigger] failures_of(
                    outcomes,
                )[k]).handler == j,
    decreases outcomes.len(),
{
    if outcomes.len() > 0 {
        let rest = outcomes.drop_last();
        let earlier = failures_of(rest);
        let all = failures_of(outcomes);
        lemma_failures_of(rest);
        assert forall|k: int| 0 <= k < all.len() implies {
            let f = #[trigger] all[k];
            0 <= f.handler < outcomes.len() && outcomes[f.handler] == Err::<(), ErrorView>(
                f.error,
            )
        } by {
            if k < earlier.len() {
                let f = earlier[k];
                assert(rest[f.handler] == outcomes[f.handler]);
            }
        }
        assert forall|k: int, l: int| 0 <= k < l < all.len() implies (#[trigger] all[k]).handler < (
        #[trigger] all[l]).handler by {
            if l < earlier.len() {
                assert(earlier[k].handler < earlier[l].handler);
            } else {
                assert(earlier[k].handler < rest.len());
            }
        }
        assert forall|j: int| 0 <= j < outcomes.len() && (#[trigger] outcomes[j]) is Err implies exists|
            k: int,
        |
            0 <= k < all.len() && (#[trigger] all[k]).handler == j by {
            if j < rest.len() {
                assert(rest[j] is Err);
                let k = choose|k: int| 0 <= k < earlier.len() && (#[trigger] earlier[k]).handler == j;
                assert(all[k].handler == j);
            } else {
                assert(all[all.len() - 1].handler == j);
            }
        }
    }
}

/// Where every handler succeeds, there is no failure.
pub proof fn lemma_all_succeed(outcomes: Seq<Result<(), ErrorView>>)
    requires
        forall|j: int| 0 <= j < outcomes.len() ==> (#[trigger] outcomes[j]) is Ok,
    ensures
        failures_of(outcomes) == Seq::<FailedView>::empty(),
    decreases outcomes.len(),
{
    if outcomes.len() > 0 {
        let rest = outcomes.drop_last();
        assert forall|j: int| 0 <= j < rest.len() implies (#[trigger] rest[j]) is Ok by {
            assert(rest[j] == outcomes[j]);
        }
        lemma_all_succeed(rest);
    }
}

/// Where handler `failing` fails and every other handler succeeds, the
/// failures are exactly the one of that handler.
pub proof fn lemma_one_handler_fails(outcomes: Seq<Result<(), ErrorView>>, failing: int)
    requires
        0 <= failing < outcomes.len(),
        forall|j: int| 0 <= j < outcomes.len() ==> ((#[trigger] outcomes[j]) is Err <==> j == failing),
    ensures
        failures_of(outcomes) == seq![
            FailedView { handler: failing, error: outcomes[failing]->Err_0 },
        ],
    decreases outcomes.len(),
{
    let rest = outcomes.drop_last();
    if failing == outcomes.len() - 1 {
        assert forall|j: int| 0 <= j < rest.len() implies (#[trigger] rest[j]) is Ok by {
            assert(rest[j] == outcomes[j]);
        }
        lemma_all_succeed(rest);
        assert(failures_of(outcomes) =~= seq![
            FailedView { handler: failing, error: outcomes[failing]->Err_0 },
        ]);
    } else {
        assert forall|j: int| 0 <= j < rest.len() implies ((#[trigger] rest[j]) is Err <==> j
            == failing) by {
            assert(rest[j] == outcomes[j]);
        }
        assert(rest[failing] == outcomes[failing]);
        lemma_one_handler_fails(rest, failing);
        assert(outcomes.last() is Ok);
    }
}

/// A run yields one report for every event of the stream, in the order in
/// which the events were pulled, each under the identity of its event: no
/// event is skipped and none is reported out of turn.
pub proof fn lemma_reports_in_pull_order(
    events: Seq<EventView>,
    outcomes: Seq<Seq<Result<(), ErrorView>>>,
)
    ensures
        reports_of(events, outcomes).len() == events.len(),
        forall|i: int|
            0 <= i < events.len() ==> (#[trigger] reports_of(events, outcomes)[i]).event_id
                == events[i].id,
{
}

/// Where, for every event of a stream, handler `failing` fails and every
/// other handler succeeds, a run yields one report for every event, and
/// every report lists exactly the failure of that handler.
pub proof fn lemma_run_one_handler_fails(
    events: Seq<EventView>,
    outcomes: Seq<Seq<Result<(), ErrorView>>>,
    handlers: nat,
    failing: int,
)
    requires
        outcomes.len() == events.len(),
        0 <= failing < handlers,
        forall|i: int| 0 <= i < outcomes.len() ==> (#[trigger] outcomes[i]).len() == handlers,
        forall|i: int, j: int|
            0 <= i < outcomes.len() && 0 <= j < handlers ==> ((#[trigger] outcomes[i][j]) is Err
                <==> j == failing),
    ensures
        reports_of(events, outcomes).len() == events.len(),
        forall|i: int|
            0 <= i < events.len() ==> (#[trigger] reports_of(events, outcomes)[i]) == (ReportView {
                event_id: events[i].id,
                failures: seq![
                    FailedView { handler: failing, error: outcomes[i][failing]->Err_0 },
                ],
            }),
{
    assert forall|i: int| 0 <= i < events.len() implies (#[trigger] reports_of(events, outcomes)[i])
        == (ReportView {
        event_id: events[i].id,
        failures: seq![FailedView { handler: failing, error: outcomes[i][failing]->Err_0 }],
    }) by {
        let row = outcomes[i];
        assert forall|j: int| 0 <= j < row.len() implies ((#[trigger] row[j]) is Err <==> j
            == failing) by {
            assert(outcomes[i][j] is Err <==> j == failing);
        }
        lemma_one_handler_fails(row, failing);
    }
}

} // verus!
