//! The batch runner behind a type of its own.
//!
//! [`QueryStream`] hides which runner carries the batch. It passes every call
//! on and adds nothing: the same actions, the same results in the same order,
//! the same size hint.

use crate::model::{outcome_of, ErrorInfo, Response};
use crate::using_stream_ext::{action_of, texts, Action, BatchRunner, BatchView};
use vstd::prelude::*;

verus! {

/// A batch of queries under way; see [`BatchRunner`].
pub struct QueryStream<'a> {
    pub stream: BatchRunner<'a>,
}

impl<'a> View for QueryStream<'a> {
    type V = BatchView;

    open spec fn view(&self) -> BatchView {
        self.stream@
    }
}

impl<'a> QueryStream<'a> {
    /// The next action of the batch, exactly as the runner inside gives it.
    pub fn poll_next(&mut self) -> (action: Action<'a>)
        ensures
            old(self)@.wf(),
            final(self)@.wf(),
            final(self)@.queries == old(self)@.queries,
            final(self)@.schedule == old(self)@.schedule.poll(),
            action@ == action_of(old(self)@.queries, old(self)@.schedule.decide()),
    {
        self.stream.poll_next()
    }

    /// Reports a completed query to the runner inside, and says whether the
    /// report was accepted.
    pub fn complete(&mut self, index: usize, response: Result<Response, ErrorInfo>) -> (accepted:
        bool)
        ensures
            old(self)@.wf(),
            final(self)@.wf(),
            accepted == old(self)@.schedule.awaits(index as nat),
            final(self)@.queries == old(self)@.queries,
            final(self)@.schedule == old(self)@.schedule.record(
                index as nat,
                outcome_of(response),
            ),
    {
        self.stream.complete(index, response)
    }

    /// The number of results still to come, as the runner inside gives it.
    pub fn size_hint(&self) -> (hint: (usize, Option<usize>))
        ensures
            self@.wf(),
            hint.0 == self@.remaining(),
            hint.1 == Some(hint.0),
    {
        self.stream.size_hint()
    }
}

/// Starts a batch behind a [`QueryStream`]: each of `queries` is taken
/// through its search, up to ten at a time.
pub fn run_queries<'a>(queries: Vec<&'a str>) -> (stream: QueryStream<'a>)
    ensures
        stream@ == BatchView::initial(texts(queries@)),
        stream@.wf(),
{
    QueryStream { stream: crate::using_stream_ext::run_queries(queries) }
}

} // verus!
