//! The batch runner: a batch of queries together with its schedule.
//!
//! The runner is polled for what to do next and is told of each query that
//! completes. It starts queries in the order of submission, keeps at most
//! [`MAX_IN_FLIGHT`] of them under way, and hands out their results in the
//! order of submission, whatever the order in which they complete.
//!
//! Each call of [`BatchRunner::poll_next`] is one [`Event::Poll`] of the
//! runner's [`Schedule`], and each call of [`BatchRunner::complete`] one
//! [`Event::Completed`]; the contracts say so. What the laws of the schedule
//! state of every sequence of events therefore holds of every sequence of
//! calls.

use crate::exchange::AwaitingReply;
use crate::model::{
    outcome_of, request, ErrorInfo, Outcome, QueryResult, QueryResultView, Response,
};
use crate::schedule::{law_submission_order, Decision, Event, Schedule, MAX_IN_FLIGHT};
use vstd::prelude::*;

verus! {

/// The texts of a sequence of queries.
pub open spec fn texts(queries: Seq<&str>) -> Seq<Seq<char>> {
    queries.map_values(|query: &str| query@)
}

/// What a slot holds, as a mathematical value.
pub open spec fn slot_of(slot: Option<Result<Response, ErrorInfo>>) -> Option<Outcome> {
    match slot {
        Some(response) => Some(outcome_of(response)),
        None => None,
    }
}

/// What the runner asks of its caller.
pub enum Action<'a> {
    /// Carry out this call; it is the query with this number.
    Start { index: usize, call: AwaitingReply<'a> },
    /// Hand this result to the consumer.
    Yield(QueryResult<'a>),
    /// Wait until a query under way completes, and report it.
    Wait,
    /// The batch is over.
    Finished,
}

/// The mathematical value of an [`Action`].
pub enum ActionView {
    Start { index: nat, query: Seq<char> },
    Yield(QueryResultView),
    Wait,
    Finished,
}

impl<'a> View for Action<'a> {
    type V = ActionView;

    open spec fn view(&self) -> ActionView {
        match self {
            Action::Start { index, call } => ActionView::Start {
                index: *index as nat,
                query: call@,
            },
            Action::Yield(result) => ActionView::Yield(result@),
            Action::Wait => ActionView::Wait,
            Action::Finished => ActionView::Finished,
        }
    }
}

/// The action that a decision of the schedule stands for in a batch of these
/// queries: the number of a query is resolved to its text.
pub open spec fn action_of(queries: Seq<Seq<char>>, decision: Decision<Outcome>) -> ActionView {
    match decision {
        Decision::Start(index) => ActionView::Start { index, query: queries[index as int] },
        Decision::Yield(index, outcome) => ActionView::Yield(
            QueryResultView { response: outcome, query: queries[index as int] },
        ),
        Decision::Wait => ActionView::Wait,
        Decision::Finished => ActionView::Finished,
    }
}

/// The results that a fresh batch of `queries` hands to its consumer in the
/// course of `events`, in the order in which it hands them out.
pub open spec fn results(queries: Seq<Seq<char>>, events: Seq<Event<Outcome>>) -> Seq<
    QueryResultView,
> {
    Schedule::initial(queries.len()).yields(events).map_values(
        |handed: (nat, Outcome)|
            QueryResultView { response: handed.1, query: queries[handed.0 as int] },
    )
}

/// The queries that a sequence of results belongs to.
pub open spec fn queries_of(results: Seq<QueryResultView>) -> Seq<Seq<char>> {
    results.map_values(|result: QueryResultView| result.query)
}

/// Whatever the course of events, the results handed out belong to the first
/// queries of the batch, one each and in the order of submission; once the
/// batch is finished, they belong to all of its queries.
pub proof fn law_results_follow_queries(queries: Seq<Seq<char>>, events: Seq<Event<Outcome>>)
    ensures
        results(queries, events).len() <= queries.len(),
        queries_of(results(queries, events)) == queries.take(results(queries, events).len() as int),
        Schedule::<Outcome>::initial(queries.len()).run(events).finished() <==> queries_of(
            results(queries, events),
        ) == queries,
{
    law_submission_order::<Outcome>(queries.len(), events);
    let handed = results(queries, events);
    assert(queries_of(handed) =~= queries.take(handed.len() as int));
    if handed.len() == queries.len() {
        assert(queries.take(handed.len() as int) =~= queries);
    }
}

/// The mathematical value of a runner: the texts of its queries and the state
/// of its schedule.
pub struct BatchView {
    pub queries: Seq<Seq<char>>,
    pub schedule: Schedule<Outcome>,
}

impl BatchView {
    /// A fresh batch of these queries.
    pub open spec fn initial(queries: Seq<Seq<char>>) -> BatchView {
        BatchView { queries, schedule: Schedule::initial(queries.len()) }
    }

    /// The states that a runner can be in.
    pub open spec fn wf(self) -> bool {
        self.schedule.wf() && self.schedule.total == self.queries.len()
    }

    /// The number of results still to be handed out.
    pub open spec fn remaining(self) -> nat {
        (self.queries.len() - self.schedule.emitted) as nat
    }
}

/// A batch of queries on its way through the schedule.
pub struct BatchRunner<'a> {
    queries: Vec<&'a str>,
    emitted: usize,
    slots: Vec<Option<Result<Response, ErrorInfo>>>,
}

impl<'a> View for BatchRunner<'a> {
    type V = BatchView;

    closed spec fn view(&self) -> BatchView {
        BatchView {
            queries: texts(self.queries@),
            schedule: Schedule {
                total: self.queries@.len(),
                emitted: self.emitted as nat,
                slots: self.slots@.map_values(|slot| slot_of(slot)),
            },
        }
    }
}

impl<'a> BatchRunner<'a> {
    #[verifier::type_invariant]
    spec fn inv(self) -> bool {
        &&& self.emitted + self.slots@.len() <= self.queries@.len()
        &&& self.slots@.len() <= MAX_IN_FLIGHT
    }

    /// A runner for these queries, none of them started.
    pub fn new(queries: Vec<&'a str>) -> (runner: Self)
        ensures
            runner@ == BatchView::initial(texts(queries@)),
            runner@.wf(),
    {
        let runner = BatchRunner { queries, emitted: 0, slots: Vec::new() };
        assert(runner@.schedule.slots =~= Seq::empty());
        runner
    }

    /// Says what is to be done next, and counts it as done.
    ///
    /// While a query is left and fewer than [`MAX_IN_FLIGHT`] are under way,
    /// the next query is started. Otherwise the result that is due next is
    /// handed out if its query has completed. Otherwise the caller waits,
    /// unless every result is out.
    pub fn poll_next(&mut self) -> (action: Action<'a>)
        ensures
            old(self)@.wf(),
            final(self)@.wf(),
            final(self)@.queries == old(self)@.queries,
            final(self)@.schedule == old(self)@.schedule.poll(),
            action@ == action_of(old(self)@.queries, old(self)@.schedule.decide()),
    {
        proof {
            use_type_invariant(&*self);
        }
        let total = self.queries.len();
        let started = self.emitted + self.slots.len();
        // The slots are taken out of the runner while they change, so that
        // the runner is within its bounds whenever it is whole.
        if started < total && self.slots.len() < MAX_IN_FLIGHT {
            let call = request(self.queries[started]);
            let mut slots = Vec::new();
            core::mem::swap(&mut self.slots, &mut slots);
            slots.push(None);
            self.slots = slots;
            assert(self@.schedule.slots =~= old(self)@.schedule.slots.push(None));
            Action::Start { index: started, call }
        } else if self.slots.len() > 0 && self.slots[0].is_some() {
            let query = self.queries[self.emitted];
            let mut slots = Vec::new();
            core::mem::swap(&mut self.slots, &mut slots);
            let slot = slots.remove(0);
            self.emitted = self.emitted + 1;
            self.slots = slots;
            assert(self@.schedule.slots =~= old(self)@.schedule.slots.drop_first());
            Action::Yield(QueryResult { response: slot.unwrap(), query })
        } else if self.emitted >= total {
            Action::Finished
        } else {
            Action::Wait
        }
    }

    /// Reports that query `index` has completed with `response`.
    ///
    /// The report is accepted if that query is under way and has not been
    /// reported before. Any other report is turned down and changes nothing.
    pub fn complete(&mut self, index: usize, response: Result<Response, ErrorInfo>) -> (accepted:
        bool)
        ensures
            old(self)@.wf(),
            final(self)@.wf(),
            accepted == old(self)@.schedule.awaits(index as nat),
            final(self)@.queries == old(self)@.queries,
            final(self)@.schedule == old(self)@.schedule.record(
                index as nat,
                outcome_of(response),
            ),
    {
        proof {
            use_type_invariant(&*self);
        }
        if index < self.emitted {
            return false;
        }
        let slot = index - self.emitted;
        if slot < self.slots.len() && self.slots[slot].is_none() {
            let mut slots = Vec::new();
            core::mem::swap(&mut self.slots, &mut slots);
            slots[slot] = Some(response);
            self.slots = slots;
            assert(self@.schedule.slots =~= old(self)@.schedule.slots.update(
                slot as int,
                Some(outcome_of(response)),
            ));
            true
        } else {
            false
        }
    }

    /// The number of results still to come, as a lower and an upper bound;
    /// the two agree.
    pub fn size_hint(&self) -> (hint: (usize, Option<usize>))
        ensures
            self@.wf(),
            hint.0 == self@.remaining(),
            hint.1 == Some(hint.0),
    {
        proof {
            use_type_invariant(self);
        }
        let remaining = self.queries.len() - self.emitted;
        (remaining, Some(remaining))
    }

    /// The number of queries under way.
    pub fn in_flight(&self) -> (count: usize)
        ensures
            self@.wf(),
            count == self@.schedule.in_flight(),
            count <= MAX_IN_FLIGHT,
    {
        proof {
            use_type_invariant(self);
        }
        self.slots.len()
    }
}

/// Starts a batch: the runner that will take each of `queries` through its
/// search, up to [`MAX_IN_FLIGHT`] at a time.
pub fn run_queries<'a>(queries: Vec<&'a str>) -> (runner: BatchRunner<'a>)
    ensures
        runner@ == BatchView::initial(texts(queries@)),
        runner@.wf(),
{
    BatchRunner::new(queries)
}

} // verus!
