//! The schedule of a batch: which query may start, which result is handed out
//! next, and how many queries are under way.
//!
//! The schedule is a mathematical state machine. A batch of `total` queries
//! is numbered from 0 in the order of submission. Queries start in that
//! order, at most [`MAX_IN_FLIGHT`] of them are under way at any time, they
//! may complete in any order, and their results are handed out in the order
//! of submission again. A query is under way from its start until its result
//! is handed out: a result that waits for its turn still holds its slot.
//!
//! The executable runners refine this machine step by step, so what is proved
//! here of every sequence of events holds of every use of them.

use vstd::prelude::*;

verus! {

/// The number of queries that may be under way at the same time.
pub const MAX_IN_FLIGHT: usize = 10;

/// The state of a batch. `T` is what a completed query leaves behind.
pub struct Schedule<T> {
    /// The number of queries in the batch.
    pub total: nat,
    /// The number of results handed out so far.
    pub emitted: nat,
    /// One slot for each query under way, in the order of submission: slot
    /// `k` belongs to query `emitted + k` and holds its outcome once it has
    /// completed.
    pub slots: Seq<Option<T>>,
}

/// What the schedule asks for when it is polled.
pub enum Decision<T> {
    /// Start the query with this number.
    Start(nat),
    /// Hand out the outcome of the query with this number.
    Yield(nat, T),
    /// Nothing can be done until a query under way completes.
    Wait,
    /// Every result has been handed out.
    Finished,
}

/// What can happen to a schedule.
pub enum Event<T> {
    /// The consumer asks for the next step.
    Poll,
    /// The query with this number has completed with this outcome.
    Completed(nat, T),
}

impl<T> Schedule<T> {
    /// The schedule of a fresh batch of `total` queries.
    pub open spec fn initial(total: nat) -> Self {
        Schedule { total, emitted: 0, slots: Seq::empty() }
    }

    /// The number of queries started so far, which is also the number of the
    /// query that starts next.
    pub open spec fn started(self) -> nat {
        self.emitted + self.slots.len()
    }

    /// The number of queries under way.
    pub open spec fn in_flight(self) -> nat {
        self.slots.len()
    }

    /// The states that a batch can be in.
    pub open spec fn wf(self) -> bool {
        &&& self.started() <= self.total
        &&& self.in_flight() <= MAX_IN_FLIGHT
    }

    /// A query is left to start and a slot is free for it.
    pub open spec fn can_start(self) -> bool {
        self.started() < self.total && self.in_flight() < MAX_IN_FLIGHT
    }

    /// The query whose result is due next has completed.
    pub open spec fn head_ready(self) -> bool {
        self.slots.len() > 0 && self.slots[0] is Some
    }

    /// Every result has been handed out.
    pub open spec fn finished(self) -> bool {
        self.emitted >= self.total
    }

    /// The query with this number is under way and has not completed.
    pub open spec fn awaits(self, index: nat) -> bool {
        self.emitted <= index < self.started() && self.slots[index - self.emitted] is None
    }

    /// What the schedule asks for when polled: to start a query while it
    /// can, else to hand out the next result if it is there, else to wait,
    /// or nothing more once all results are out.
    pub open spec fn decide(self) -> Decision<T> {
        if self.can_start() {
            Decision::Start(self.started())
        } else if self.head_ready() {
            Decision::Yield(self.emitted, self.slots[0]->0)
        } else if self.finished() {
            Decision::Finished
        } else {
            Decision::Wait
        }
    }

    /// The state after a poll: the decision is taken as carried out.
    pub open spec fn poll(self) -> Self {
        match self.decide() {
            Decision::Start(_) => Schedule { slots: self.slots.push(None), ..self },
            Decision::Yield(_, _) => Schedule {
                emitted: self.emitted + 1,
                slots: self.slots.drop_first(),
                ..self
            },
            _ => self,
        }
    }

    /// The state after query `index` is reported as completed with `outcome`.
    /// The report counts only for a query that is under way and has not
    /// completed before; any other leaves the state as it is.
    pub open spec fn record(self, index: nat, outcome: T) -> Self {
        if self.awaits(index) {
            Schedule { slots: self.slots.update(index - self.emitted, Some(outcome)), ..self }
        } else {
            self
        }
    }

    /// The state after one event.
    pub open spec fn step(self, event: Event<T>) -> Self {
        match event {
            Event::Poll => self.poll(),
            Event::Completed(index, outcome) => self.record(index, outcome),
        }
    }

    /// The query that one event starts, if it starts one.
    pub open spec fn step_start(self, event: Event<T>) -> Option<nat> {
        match (event, self.decide()) {
            (Event::Poll, Decision::Start(index)) => Some(index),
            _ => None,
        }
    }

    /// The result that one event hands out, if it hands one out.
    pub open spec fn step_yield(self, event: Event<T>) -> Option<(nat, T)> {
        match (event, self.decide()) {
            (Event::Poll, Decision::Yield(index, outcome)) => Some((index, outcome)),
            _ => None,
        }
    }

    /// The state after a sequence of events.
    pub open spec fn run(self, events: Seq<Event<T>>) -> Self
        decreases events.len(),
    {
        if events.len() == 0 {
            self
        } else {
            self.run(events.drop_last()).step(events.last())
        }
    }

    /// The queries that a sequence of events starts, in the order in which
    /// they start.
    pub open spec fn starts(self, events: Seq<Event<T>>) -> Seq<nat>
        decreases events.len(),
    {
        if events.len() == 0 {
            Seq::empty()
        } else {
            let before = self.starts(events.drop_last());
            match self.run(events.drop_last()).step_start(events.last()) {
                Some(index) => before.push(index),
                None => before,
            }
        }
    }

    /// The results that a sequence of events hands out, in the order in
    /// which they are handed out, each with the number of its query.
    pub open spec fn yields(self, events: Seq<Event<T>>) -> Seq<(nat, T)>
        decreases events.len(),
    {
        if events.len() == 0 {
            Seq::empty()
        } else {
            let before = self.yields(events.drop_last());
            match self.run(events.drop_last()).step_yield(events.last()) {
                Some(result) => before.push(result),
                None => before,
            }
        }
    }
}

/// One event keeps a batch within its bounds.
pub proof fn law_step_preserves_wf<T>(schedule: Schedule<T>, event: Event<T>)
    requires
        schedule.wf(),
    ensures
        schedule.step(event).wf(),
        schedule.step(event).total == schedule.total,
{
}

/// Whatever happens to a batch, and in whatever order its queries complete:
/// queries start in the order of submission, results are handed out in the
/// order of submission, no query is started or handed out twice, and the
/// queries under way are exactly those started and not yet handed out.
pub proof fn law_submission_order<T>(total: nat, events: Seq<Event<T>>)
    ensures
        ({
            let batch = Schedule::<T>::initial(total);
            let end = batch.run(events);
            let starts = batch.starts(events);
            let yields = batch.yields(events);
            &&& end.wf()
            &&& end.total == total
            &&& starts.len() == end.started()
            &&& yields.len() == end.emitted
            &&& yields.len() <= starts.len() <= total
            &&& starts.len() - yields.len() == end.in_flight()
            &&& forall|k: int| 0 <= k < starts.len() ==> starts[k] == k
            &&& forall|k: int| 0 <= k < yields.len() ==> (#[trigger] yields[k]).0 == k
        }),
    decreases events.len(),
{
    let batch = Schedule::<T>::initial(total);
    if events.len() > 0 {
        law_submission_order::<T>(total, events.drop_last());
        law_step_preserves_wf(batch.run(events.drop_last()), events.last());
    }
}

/// At no point of any course of events are more than [`MAX_IN_FLIGHT`]
/// queries under way: not at its end, and not after any part of it.
pub proof fn law_in_flight_bounded<T>(total: nat, events: Seq<Event<T>>)
    ensures
        forall|upto: int|
            0 <= upto <= events.len() ==> {
                let part = #[trigger] events.take(upto);
                let batch = Schedule::<T>::initial(total);
                &&& batch.run(part).in_flight() <= MAX_IN_FLIGHT
                &&& batch.starts(part).len() - batch.yields(part).len() == batch.run(
                    part,
                ).in_flight()
            },
        Schedule::<T>::initial(total).run(events).in_flight() <= MAX_IN_FLIGHT,
{
    assert forall|upto: int| 0 <= upto <= events.len() implies {
        let part = #[trigger] events.take(upto);
        let batch = Schedule::<T>::initial(total);
        &&& batch.run(part).in_flight() <= MAX_IN_FLIGHT
        &&& batch.starts(part).len() - batch.yields(part).len() == batch.run(part).in_flight()
    } by {
        law_submission_order::<T>(total, events.take(upto));
    }
    law_submission_order::<T>(total, events);
}

/// A batch is finished exactly when one result has been handed out for each
/// of its queries.
pub proof fn law_one_result_per_query<T>(total: nat, events: Seq<Event<T>>)
    ensures
        Schedule::<T>::initial(total).yields(events).len() <= total,
        Schedule::<T>::initial(total).run(events).finished() <==> Schedule::<T>::initial(
            total,
        ).yields(events).len() == total,
{
    law_submission_order::<T>(total, events);
}

/// However few results the consumer takes, the number of queries started
/// never exceeds the number of results taken by more than [`MAX_IN_FLIGHT`]:
/// not at the end of a course of events, and not after any part of it.
pub proof fn law_dispatch_bounded<T>(total: nat, events: Seq<Event<T>>)
    ensures
        forall|upto: int|
            0 <= upto <= events.len() ==> {
                let part = #[trigger] events.take(upto);
                let batch = Schedule::<T>::initial(total);
                batch.starts(part).len() <= batch.yields(part).len() + MAX_IN_FLIGHT
            },
        Schedule::<T>::initial(total).starts(events).len() <= Schedule::<T>::initial(
            total,
        ).yields(events).len() + MAX_IN_FLIGHT,
{
    assert forall|upto: int| 0 <= upto <= events.len() implies {
        let part = #[trigger] events.take(upto);
        let batch = Schedule::<T>::initial(total);
        batch.starts(part).len() <= batch.yields(part).len() + MAX_IN_FLIGHT
    } by {
        law_submission_order::<T>(total, events.take(upto));
    }
    law_submission_order::<T>(total, events);
}

/// Only a poll starts a query: the report of a completed query starts none
/// and hands out nothing, so a consumer that stops polling stops the batch.
pub proof fn law_reports_start_nothing<T>(
    total: nat,
    events: Seq<Event<T>>,
    index: nat,
    outcome: T,
)
    ensures
        ({
            let batch = Schedule::<T>::initial(total);
            let longer = events.push(Event::Completed(index, outcome));
            &&& batch.starts(longer) == batch.starts(events)
            &&& batch.yields(longer) == batch.yields(events)
            &&& batch.run(longer).started() == batch.run(events).started()
        }),
{
    let longer = events.push(Event::Completed(index, outcome));
    assert(longer.drop_last() =~= events);
}

/// An empty batch starts nothing, hands out nothing, and is finished from the
/// beginning.
pub proof fn law_empty_batch<T>(events: Seq<Event<T>>)
    ensures
        Schedule::<T>::initial(0).starts(events).len() == 0,
        Schedule::<T>::initial(0).yields(events).len() == 0,
        Schedule::<T>::initial(0).run(events) == Schedule::<T>::initial(0),
        Schedule::<T>::initial(0).decide() == Decision::<T>::Finished,
{
    law_submission_order::<T>(0, events);
    let end = Schedule::<T>::initial(0).run(events);
    assert(end.slots =~= Seq::empty());
}

/// A batch that is not finished is never stuck: a poll starts a query or
/// hands out a result, or else the query whose result is due next is under
/// way, and a poll hands out its result as soon as it is reported.
pub proof fn law_never_stuck<T>(schedule: Schedule<T>, outcome: T)
    requires
        schedule.wf(),
        !schedule.finished(),
    ensures
        schedule.decide() is Start || schedule.decide() is Yield || schedule.decide() is Wait,
        schedule.decide() is Start ==> schedule.poll().started() == schedule.started() + 1,
        schedule.decide() is Yield ==> schedule.poll().emitted == schedule.emitted + 1,
        schedule.decide() is Wait ==> {
            &&& schedule.awaits(schedule.emitted)
            &&& schedule.record(schedule.emitted, outcome).decide() == Decision::Yield(
                schedule.emitted,
                outcome,
            )
        },
{
}

/// The number of slots whose query has not completed.
pub open spec fn pending<T>(slots: Seq<Option<T>>) -> nat
    decreases slots.len(),
{
    if slots.len() == 0 {
        0
    } else if slots.last() is None {
        pending(slots.drop_last()) + 1
    } else {
        pending(slots.drop_last())
    }
}

impl<T> Schedule<T> {
    /// The number of steps that separate the batch from its end: two for
    /// each query that has not started (its start and its completion), one
    /// for each query under way that has not completed, and one for each
    /// result that has not been handed out.
    pub open spec fn work_left(self) -> nat {
        (2 * (self.total - self.started()) + pending(self.slots) + (self.total
            - self.emitted)) as nat
    }
}

proof fn lemma_pending_update<T>(slots: Seq<Option<T>>, at: int, outcome: T)
    requires
        0 <= at < slots.len(),
        slots[at] is None,
    ensures
        pending(slots.update(at, Some(outcome))) + 1 == pending(slots),
    decreases slots.len(),
{
    let updated = slots.update(at, Some(outcome));
    if at == slots.len() - 1 {
        assert(updated.drop_last() =~= slots.drop_last());
    } else {
        lemma_pending_update(slots.drop_last(), at, outcome);
        assert(updated.drop_last() =~= slots.drop_last().update(at, Some(outcome)));
    }
}

proof fn lemma_pending_drop_first<T>(slots: Seq<Option<T>>)
    requires
        slots.len() > 0,
        slots[0] is Some,
    ensures
        pending(slots.drop_first()) == pending(slots),
    decreases slots.len(),
{
    if slots.len() == 1 {
        assert(slots.drop_first() =~= slots.drop_last());
    } else {
        lemma_pending_drop_first(slots.drop_last());
        assert(slots.drop_first().drop_last() =~= slots.drop_last().drop_first());
    }
}

/// Every event that changes a batch brings it one step nearer to its end,
/// and a batch is at its end exactly when no step is left. A fresh batch is
/// three steps away from its end for each of its queries.
pub proof fn law_work_counts_down<T>(schedule: Schedule<T>, event: Event<T>)
    requires
        schedule.wf(),
    ensures
        schedule.step(event) == schedule || schedule.step(event).work_left() + 1
            == schedule.work_left(),
        schedule.work_left() == 0 <==> schedule.finished(),
        Schedule::<T>::initial(schedule.total).work_left() == 3 * schedule.total,
{
    assert(pending(Schedule::<T>::initial(schedule.total).slots) == 0);
    if schedule.slots.len() == 0 {
        assert(pending(schedule.slots) == 0);
    }
    match event {
        Event::Poll => {
            match schedule.decide() {
                Decision::Start(_) => {
                    assert(schedule.slots.push(None).drop_last() =~= schedule.slots);
                },
                Decision::Yield(_, _) => {
                    lemma_pending_drop_first(schedule.slots);
                },
                _ => {},
            }
        },
        Event::Completed(index, outcome) => {
            if schedule.awaits(index) {
                lemma_pending_update(schedule.slots, index - schedule.emitted, outcome);
            }
        },
    }
}

/// The event that moves a batch on when query `k` ends in `given[k]`: the
/// report of the query whose result is due next where the batch waits for
/// it, and a poll otherwise.
pub open spec fn next_event<T>(schedule: Schedule<T>, given: Seq<T>) -> Event<T> {
    if schedule.decide() is Wait {
        Event::Completed(schedule.emitted, given[schedule.emitted as int])
    } else {
        Event::Poll
    }
}

/// The first `count` events of the course that takes a fresh batch of
/// `total` queries to its end when query `k` ends in `given[k]`.
pub open spec fn course<T>(total: nat, given: Seq<T>, count: nat) -> Seq<Event<T>>
    decreases count,
{
    if count == 0 {
        Seq::empty()
    } else {
        let before = course(total, given, (count - 1) as nat);
        before.push(next_event(Schedule::<T>::initial(total).run(before), given))
    }
}

proof fn lemma_course<T>(total: nat, given: Seq<T>, count: nat)
    requires
        given.len() == total,
        count <= 3 * total,
    ensures
        ({
            let events = course(total, given, count);
            let end = Schedule::<T>::initial(total).run(events);
            let yields = Schedule::<T>::initial(total).yields(events);
            &&& events.len() == count
            &&& end.wf()
            &&& end.total == total
            &&& end.work_left() + count == 3 * total
            &&& yields.len() == end.emitted
            &&& forall|slot: int|
                0 <= slot < end.slots.len() && (#[trigger] end.slots[slot]) is Some
                    ==> end.slots[slot]->0 == given[end.emitted + slot]
            &&& forall|k: int|
                0 <= k < yields.len() ==> #[trigger] yields[k] == (k as nat, given[k])
        }),
    decreases count,
{
    let batch = Schedule::<T>::initial(total);
    let events = course(total, given, count);
    law_submission_order::<T>(total, events);
    if count == 0 {
        law_work_counts_down(batch, Event::Poll);
    } else {
        let earlier = course(total, given, (count - 1) as nat);
        lemma_course(total, given, (count - 1) as nat);
        law_submission_order::<T>(total, earlier);
        let before = batch.run(earlier);
        let event = next_event(before, given);
        assert(events.drop_last() =~= earlier);
        assert(events.last() == event);
        let end = batch.run(events);
        assert(end == before.step(event));
        law_work_counts_down(before, event);
        law_never_stuck(before, given[before.emitted as int]);
        assert(end != before) by {
            if before.decide() is Wait {
                assert(before.slots[0] is None);
                assert(end.slots[0] is Some);
            }
        }
        let yields = batch.yields(events);
        let yielded = batch.yields(earlier);
        assert forall|k: int| 0 <= k < yields.len() implies #[trigger] yields[k] == (
            k as nat,
            given[k],
        ) by {
            if k < yielded.len() {
                assert(yields[k] == yielded[k]);
            } else {
                assert(before.slots[0] is Some);
            }
        }
        assert forall|slot: int|
            0 <= slot < end.slots.len() && (#[trigger] end.slots[slot]) is Some implies given[end.emitted
            + slot] == end.slots[slot]->0 by {
            match before.decide() {
                Decision::Start(_) => {
                    assert(end.slots[slot] == before.slots[slot]);
                },
                Decision::Yield(_, _) => {
                    assert(end.slots[slot] == before.slots[slot + 1]);
                },
                _ => {
                    if slot > 0 {
                        assert(end.slots[slot] == before.slots[slot]);
                    }
                },
            }
        }
    }
}

/// Every batch can be taken to its end, whatever its queries end in: three
/// events for each query start them all, in the order of submission, and
/// hand out for each of them, in the order of submission, what it ended in.
pub proof fn law_batch_completes<T>(total: nat, given: Seq<T>)
    requires
        given.len() == total,
    ensures
        ({
            let batch = Schedule::<T>::initial(total);
            let events = course(total, given, 3 * total);
            &&& batch.run(events).finished()
            &&& batch.starts(events) == Seq::new(total, |k: int| k as nat)
            &&& batch.yields(events) == Seq::new(total, |k: int| (k as nat, given[k]))
        }),
{
    let batch = Schedule::<T>::initial(total);
    let events = course(total, given, 3 * total);
    lemma_course(total, given, 3 * total);
    law_submission_order::<T>(total, events);
    law_work_counts_down(batch.run(events), Event::Poll);
    assert(batch.starts(events) =~= Seq::new(total, |k: int| k as nat));
    assert(batch.yields(events) =~= Seq::new(total, |k: int| (k as nat, given[k])));
}

/// Some event of `events` reports that query `index` completed with
/// `outcome`.
pub open spec fn reported<T>(events: Seq<Event<T>>, index: nat, outcome: T) -> bool {
    exists|at: int|
        0 <= at < events.len() && #[trigger] events[at] == Event::Completed(index, outcome)
}

proof fn lemma_reported_stays<T>(events: Seq<Event<T>>, index: nat, outcome: T)
    requires
        events.len() > 0,
        reported(events.drop_last(), index, outcome),
    ensures
        reported(events, index, outcome),
{
    let at = choose|at: int|
        0 <= at < events.drop_last().len() && #[trigger] events.drop_last()[at] == Event::Completed(
            index,
            outcome,
        );
    assert(events[at] == Event::Completed(index, outcome));
}

proof fn lemma_outcomes_reported<T>(total: nat, events: Seq<Event<T>>)
    ensures
        ({
            let end = Schedule::<T>::initial(total).run(events);
            let yields = Schedule::<T>::initial(total).yields(events);
            &&& forall|slot: int|
                0 <= slot < end.slots.len() && (#[trigger] end.slots[slot]) is Some ==> reported(
                    events,
                    (end.emitted + slot) as nat,
                    end.slots[slot]->0,
                )
            &&& forall|k: int|
                0 <= k < yields.len() ==> reported(events, k as nat, (#[trigger] yields[k]).1)
        }),
    decreases events.len(),
{
    let batch = Schedule::<T>::initial(total);
    let end = batch.run(events);
    let yields = batch.yields(events);
    if events.len() > 0 {
        let earlier = events.drop_last();
        let before = batch.run(earlier);
        let yielded = batch.yields(earlier);
        lemma_outcomes_reported::<T>(total, earlier);
        law_submission_order::<T>(total, earlier);
        law_submission_order::<T>(total, events);
        assert forall|slot: int|
            0 <= slot < end.slots.len() && (#[trigger] end.slots[slot]) is Some implies reported(
            events,
            (end.emitted + slot) as nat,
            end.slots[slot]->0,
        ) by {
            match events.last() {
                Event::Poll => {
                    match before.decide() {
                        Decision::Start(_) => {
                            assert(end.slots[slot] == before.slots[slot]);
                            lemma_reported_stays(
                                events,
                                (before.emitted + slot) as nat,
                                before.slots[slot]->0,
                            );
                        },
                        Decision::Yield(_, _) => {
                            assert(end.slots[slot] == before.slots[slot + 1]);
                            lemma_reported_stays(
                                events,
                                (before.emitted + slot + 1) as nat,
                                before.slots[slot + 1]->0,
                            );
                        },
                        _ => {
                            lemma_reported_stays(
                                events,
                                (before.emitted + slot) as nat,
                                before.slots[slot]->0,
                            );
                        },
                    }
                },
                Event::Completed(index, outcome) => {
                    if before.awaits(index) && slot == index - before.emitted {
                        assert(events[events.len() - 1] == Event::Completed(index, outcome));
                    } else {
                        assert(end.slots[slot] == before.slots[slot]);
                        lemma_reported_stays(
                            events,
                            (before.emitted + slot) as nat,
                            before.slots[slot]->0,
                        );
                    }
                },
            }
        }
        assert forall|k: int| 0 <= k < yields.len() implies reported(
            events,
            k as nat,
            (#[trigger] yields[k]).1,
        ) by {
            if k < yielded.len() {
                assert(yields[k] == yielded[k]);
                lemma_reported_stays(events, k as nat, yielded[k].1);
            } else {
                assert(before.decide() == Decision::Yield(before.emitted, before.slots[0]->0));
                assert(before.slots[0] is Some);
                lemma_reported_stays(events, before.emitted, before.slots[0]->0);
            }
        }
    }
}

/// The result handed out for a query is an outcome that was reported for
/// that very query.
pub proof fn law_outcome_is_reported<T>(total: nat, events: Seq<Event<T>>, k: int)
    requires
        0 <= k < Schedule::<T>::initial(total).yields(events).len(),
    ensures
        Schedule::<T>::initial(total).yields(events)[k].0 == k,
        reported(events, k as nat, Schedule::<T>::initial(total).yields(events)[k].1),
{
    law_submission_order::<T>(total, events);
    lemma_outcomes_reported::<T>(total, events);
}

/// Two courses of events are the same but for the outcomes reported for
/// `query`.
pub open spec fn same_but_for<T>(left: Seq<Event<T>>, right: Seq<Event<T>>, query: nat) -> bool {
    &&& left.len() == right.len()
    &&& forall|at: int|
        0 <= at < left.len() ==> {
            ||| #[trigger] left[at] == right[at]
            ||| (left[at] matches Event::Completed(l, _) && right[at] matches Event::Completed(
                r,
                _,
            ) && l == query && r == query)
        }
}

/// Two batches are in the same state but for the outcome that the slot of
/// `query` holds.
spec fn alike<T>(left: Schedule<T>, right: Schedule<T>, query: nat) -> bool {
    &&& left.total == right.total
    &&& left.emitted == right.emitted
    &&& left.slots.len() == right.slots.len()
    &&& forall|slot: int|
        0 <= slot < left.slots.len() ==> {
            &&& (#[trigger] left.slots[slot]) is Some <==> right.slots[slot] is Some
            &&& left.emitted + slot != query ==> left.slots[slot] == right.slots[slot]
        }
}

proof fn lemma_alike_after<T>(total: nat, left: Seq<Event<T>>, right: Seq<Event<T>>, query: nat)
    requires
        same_but_for(left, right, query),
    ensures
        ({
            let batch = Schedule::<T>::initial(total);
            &&& alike(batch.run(left), batch.run(right), query)
            &&& batch.starts(left) == batch.starts(right)
            &&& batch.yields(left).len() == batch.yields(right).len()
            &&& forall|k: int|
                0 <= k < batch.yields(left).len() && k != query ==> #[trigger] batch.yields(left)[k]
                    == batch.yields(right)[k]
        }),
    decreases left.len(),
{
    let batch = Schedule::<T>::initial(total);
    if left.len() > 0 {
        let l = left.drop_last();
        let r = right.drop_last();
        assert(same_but_for(l, r, query)) by {
            assert forall|at: int| 0 <= at < l.len() implies {
                ||| #[trigger] l[at] == r[at]
                ||| (l[at] matches Event::Completed(i, _) && r[at] matches Event::Completed(j, _)
                    && i == query && j == query)
            } by {
                assert(l[at] == left[at] && r[at] == right[at]);
            }
        }
        lemma_alike_after::<T>(total, l, r, query);
        law_submission_order::<T>(total, l);
        law_submission_order::<T>(total, r);
        law_submission_order::<T>(total, left);
        law_submission_order::<T>(total, right);
        let a = batch.run(l);
        let b = batch.run(r);
        assert(a.slots.len() > 0 ==> (a.slots[0] is Some <==> b.slots[0] is Some));
        assert(left[left.len() - 1] == left.last() && right[left.len() - 1] == right.last());
        let a2 = batch.run(left);
        let b2 = batch.run(right);
        assert(alike(a2, b2, query)) by {
            assert forall|slot: int| 0 <= slot < a2.slots.len() implies {
                &&& (#[trigger] a2.slots[slot]) is Some <==> b2.slots[slot] is Some
                &&& a2.emitted + slot != query ==> a2.slots[slot] == b2.slots[slot]
            } by {
                if slot < a.slots.len() {
                    assert(a.slots[slot] is Some <==> b.slots[slot] is Some);
                }
                if slot + 1 < a.slots.len() {
                    assert(a.slots[slot + 1] is Some <==> b.slots[slot + 1] is Some);
                }
            }
        }
    }
}

/// What is reported for one query has no bearing on any other: two courses
/// of events that differ only in the outcomes reported for `query` start the
/// same queries and hand out the same result for every other query.
pub proof fn law_outcomes_independent<T>(
    total: nat,
    left: Seq<Event<T>>,
    right: Seq<Event<T>>,
    query: nat,
)
    requires
        same_but_for(left, right, query),
    ensures
        Schedule::<T>::initial(total).starts(left) == Schedule::<T>::initial(total).starts(right),
        Schedule::<T>::initial(total).yields(left).len() == Schedule::<T>::initial(total).yields(
            right,
        ).len(),
        forall|k: int|
            0 <= k < Schedule::<T>::initial(total).yields(left).len() && k != query
                ==> #[trigger] Schedule::<T>::initial(total).yields(left)[k]
                == Schedule::<T>::initial(total).yields(right)[k],
{
    lemma_alike_after::<T>(total, left, right, query);
}

} // verus!
