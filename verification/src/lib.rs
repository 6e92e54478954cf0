//! Bounded, order-preserving fan-out of product-search queries.
//!
//! A batch of search terms is sent to a product-search endpoint, one GET per
//! term and at most ten at a time, and the replies are handed out in the
//! order in which the terms were given. A query that fails fails alone: its
//! failure is its result, and the batch goes on.
//!
//! The crate holds the decisions and leaves the waiting to its caller. Two
//! state machines make them:
//!
//! - [`exchange`] takes one query from its request to its result. The caller
//!   sends the request, hands back the reply, decodes the body when asked to,
//!   and hands back what the decoder said.
//! - [`using_stream_ext`] takes a batch through its [`schedule`]. The caller
//!   polls for the next action, starts the calls it is told to start, reports
//!   each one that completes, and passes on the results it is given.
//!   [`using_custom_stream`] offers the same behind one opaque type.
//!
//! [`model`] holds the data, and [`render`] the one-line text of a result.
//!
//! Every function is verified against a contract over the mathematical value
//! of its arguments, and what holds of every run of a batch is proved in
//! [`schedule`] for every sequence of events.

pub mod exchange;
pub mod model;
pub mod render;
pub mod schedule;
pub mod using_custom_stream;
pub mod using_stream_ext;
