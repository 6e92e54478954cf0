//! The data that flows through the pipeline: products, replies, failures and
//! the result of one query, each with its mathematical view.

use crate::exchange::AwaitingReply;
use vstd::prelude::*;

verus! {

/// One product of a search reply.
///
/// As JSON: `{ "id": 11, "title": "perfume Oil", "category": "fragrances", ... }`.
pub struct Product {
    pub id: usize,
    pub title: String,
    pub category: String,
}

/// The mathematical value of a [`Product`].
pub struct ProductView {
    pub id: nat,
    pub title: Seq<char>,
    pub category: Seq<char>,
}

impl View for Product {
    type V = ProductView;

    open spec fn view(&self) -> ProductView {
        ProductView { id: self.id as nat, title: self.title@, category: self.category@ }
    }
}

/// The decoded body of a successful search.
///
/// As JSON: `{ "products": [...], "total": 5, "skip": 0, "limit": 5 }`.
pub struct Response {
    pub total: usize,
    pub skip: usize,
    pub limit: usize,
    pub products: Vec<Product>,
}

/// The mathematical value of a [`Response`].
pub struct ResponseView {
    pub total: nat,
    pub skip: nat,
    pub limit: nat,
    pub products: Seq<ProductView>,
}

impl View for Response {
    type V = ResponseView;

    open spec fn view(&self) -> ResponseView {
        ResponseView {
            total: self.total as nat,
            skip: self.skip as nat,
            limit: self.limit as nat,
            products: self.products@.map_values(|p: Product| p@),
        }
    }
}

/// Why a query has no [`Response`].
#[derive(Debug, PartialEq, Eq)]
pub enum ErrorInfo {
    /// No response was obtained: the connection, the network or a timeout
    /// failed first. Carries the transport's own description.
    Transport(String),
    /// A response arrived whose status is outside the success range.
    HttpStatus(u16),
    /// The body of a successful response did not have the expected shape.
    /// Carries the decoder's own description.
    Decode(String),
}

/// The mathematical value of an [`ErrorInfo`].
pub enum ErrorInfoView {
    Transport(Seq<char>),
    HttpStatus(u16),
    Decode(Seq<char>),
}

impl View for ErrorInfo {
    type V = ErrorInfoView;

    open spec fn view(&self) -> ErrorInfoView {
        match self {
            ErrorInfo::Transport(message) => ErrorInfoView::Transport(message@),
            ErrorInfo::HttpStatus(code) => ErrorInfoView::HttpStatus(*code),
            ErrorInfo::Decode(message) => ErrorInfoView::Decode(message@),
        }
    }
}

impl ErrorInfoView {
    /// The status code that the failure carries, if it is a status failure.
    pub open spec fn status(self) -> Option<u16> {
        match self {
            ErrorInfoView::HttpStatus(code) => Some(code),
            _ => None,
        }
    }
}

impl ErrorInfo {
    /// The status code of the response that caused this failure, if there was
    /// a response.
    pub fn status(&self) -> (code: Option<u16>)
        ensures
            code == self@.status(),
    {
        match self {
            ErrorInfo::HttpStatus(code) => Some(*code),
            _ => None,
        }
    }
}

/// What a query ends in, as a mathematical value.
pub type Outcome = Result<ResponseView, ErrorInfoView>;

/// The mathematical value of what a query ended in.
pub open spec fn outcome_of(response: Result<Response, ErrorInfo>) -> Outcome {
    match response {
        Ok(reply) => Ok(reply@),
        Err(failure) => Err(failure@),
    }
}

/// A query string together with what the search for it ended in.
pub struct QueryResult<'a> {
    pub response: Result<Response, ErrorInfo>,
    pub query: &'a str,
}

/// The mathematical value of a [`QueryResult`].
pub struct QueryResultView {
    pub response: Outcome,
    pub query: Seq<char>,
}

impl<'a> View for QueryResult<'a> {
    type V = QueryResultView;

    open spec fn view(&self) -> QueryResultView {
        QueryResultView { response: outcome_of(self.response), query: self.query@ }
    }
}

impl<'a> From<(Result<Response, ErrorInfo>, &'a str)> for QueryResult<'a> {
    /// Pairs what a search ended in with the query that was searched for.
    fn from(pair: (Result<Response, ErrorInfo>, &'a str)) -> (result: Self) {
        QueryResult { response: pair.0, query: pair.1 }
    }
}

impl<'a> vstd::std_specs::convert::FromSpecImpl<(Result<Response, ErrorInfo>, &'a str)> for QueryResult<'a> {
    open spec fn obeys_from_spec() -> bool {
        true
    }

    open spec fn from_spec(pair: (Result<Response, ErrorInfo>, &'a str)) -> Self {
        QueryResult { response: pair.0, query: pair.1 }
    }
}

/// Begins the search for `query`: the returned state says which GET is to be
/// sent and takes the transport's reply.
pub fn request<'a>(query: &'a str) -> (call: AwaitingReply<'a>)
    ensures
        call@ == query@,
{
    AwaitingReply::new(query)
}

} // verus!
