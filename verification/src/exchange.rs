//! The course of one query, as a state machine.
//!
//! A query is sent, a reply comes back, and the body of a successful reply is
//! decoded. The network and the decoder are the caller's; this module decides
//! what is asked of them and what each of their answers means. The states are
//! types, so that a step can only be taken from the state it belongs to.

use crate::model::{
    ErrorInfo, ErrorInfoView, QueryResult, QueryResultView, Response, ResponseView,
};
use vstd::prelude::*;

verus! {

/// The address that every search is sent to.
pub open spec fn search_url() -> Seq<char> {
    "https://dummyjson.com/products/search"@
}

/// The name of the URL parameter that carries the query.
pub open spec fn query_parameter() -> Seq<char> {
    "q"@
}

/// Whether `status` lies in the success range, 200 to 299.
pub open spec fn is_success(status: u16) -> bool {
    200 <= status < 300
}

/// Tells whether `status` lies in the success range.
pub fn status_is_success(status: u16) -> (yes: bool)
    ensures
        yes == is_success(status),
{
    200 <= status && status < 300
}

/// A GET request: an address and one URL parameter.
#[derive(Debug, Clone, Copy)]
pub struct SearchRequest<'a> {
    pub url: &'static str,
    pub parameter: &'static str,
    pub value: &'a str,
}

/// The mathematical value of a [`SearchRequest`].
pub struct SearchRequestView {
    pub url: Seq<char>,
    pub parameter: Seq<char>,
    pub value: Seq<char>,
}

impl<'a> View for SearchRequest<'a> {
    type V = SearchRequestView;

    open spec fn view(&self) -> SearchRequestView {
        SearchRequestView { url: self.url@, parameter: self.parameter@, value: self.value@ }
    }
}

/// The request that the search for `query` sends.
pub open spec fn search_request(query: Seq<char>) -> SearchRequestView {
    SearchRequestView { url: search_url(), parameter: query_parameter(), value: query }
}

/// What the transport reports of one GET.
#[derive(Debug)]
pub enum Reply {
    /// No response was obtained; the text describes why.
    Failed(String),
    /// A response arrived, with this status and this body.
    Received { status: u16, body: Vec<u8> },
}

/// The mathematical value of a [`Reply`].
pub enum ReplyView {
    Failed(Seq<char>),
    Received { status: u16, body: Seq<u8> },
}

impl View for Reply {
    type V = ReplyView;

    open spec fn view(&self) -> ReplyView {
        match self {
            Reply::Failed(message) => ReplyView::Failed(message@),
            Reply::Received { status, body } => ReplyView::Received {
                status: *status,
                body: body@,
            },
        }
    }
}

/// What the decoder reports of one body, as a mathematical value: the
/// response, or a description of what was wrong with the body.
pub open spec fn decoded_of(decoded: Result<Response, String>) -> Result<ResponseView, Seq<char>> {
    match decoded {
        Ok(reply) => Ok(reply@),
        Err(message) => Err(message@),
    }
}

/// A query whose request is with the transport.
pub struct AwaitingReply<'a> {
    query: &'a str,
}

impl<'a> View for AwaitingReply<'a> {
    type V = Seq<char>;

    /// The query that is being searched for.
    closed spec fn view(&self) -> Seq<char> {
        self.query@
    }
}

/// A query whose reply was successful and whose body is with the decoder.
pub struct AwaitingDecode<'a> {
    query: &'a str,
    body: Vec<u8>,
}

/// The mathematical value of an [`AwaitingDecode`].
pub struct AwaitingDecodeView {
    pub query: Seq<char>,
    pub body: Seq<u8>,
}

impl<'a> View for AwaitingDecode<'a> {
    type V = AwaitingDecodeView;

    closed spec fn view(&self) -> AwaitingDecodeView {
        AwaitingDecodeView { query: self.query@, body: self.body@ }
    }
}

/// Where a query stands once its reply is in.
pub enum Step<'a> {
    /// The body is to be decoded.
    Decode(AwaitingDecode<'a>),
    /// The query is settled.
    Done(QueryResult<'a>),
}

/// The mathematical value of a [`Step`].
pub enum StepView {
    Decode(AwaitingDecodeView),
    Done(QueryResultView),
}

impl<'a> View for Step<'a> {
    type V = StepView;

    open spec fn view(&self) -> StepView {
        match self {
            Step::Decode(next) => StepView::Decode(next@),
            Step::Done(result) => StepView::Done(result@),
        }
    }
}

/// What a reply means for the query it answers.
///
/// A transport failure settles the query with that failure. A status outside
/// the success range settles it with the status, and the body is left alone.
/// Only the body of a successful reply goes to the decoder.
pub open spec fn after_reply(query: Seq<char>, reply: ReplyView) -> StepView {
    match reply {
        ReplyView::Failed(message) => StepView::Done(
            QueryResultView { response: Err(ErrorInfoView::Transport(message)), query },
        ),
        ReplyView::Received { status, body } => if is_success(status) {
            StepView::Decode(AwaitingDecodeView { query, body })
        } else {
            StepView::Done(
                QueryResultView { response: Err(ErrorInfoView::HttpStatus(status)), query },
            )
        },
    }
}

/// What the decoder's answer means for the query: its response, or a decode
/// failure with the decoder's description.
pub open spec fn after_decode(
    query: Seq<char>,
    decoded: Result<ResponseView, Seq<char>>,
) -> QueryResultView {
    match decoded {
        Ok(reply) => QueryResultView { response: Ok(reply), query },
        Err(message) => QueryResultView { response: Err(ErrorInfoView::Decode(message)), query },
    }
}

/// What a query ends in, given the transport's reply and what the decoder
/// would make of the body.
pub open spec fn settled(
    query: Seq<char>,
    reply: ReplyView,
    decoded: Result<ResponseView, Seq<char>>,
) -> QueryResultView {
    match after_reply(query, reply) {
        StepView::Done(result) => result,
        StepView::Decode(next) => after_decode(next.query, decoded),
    }
}

/// A query ends with its own text, whatever the transport and the decoder
/// report.
pub proof fn law_result_names_query(
    query: Seq<char>,
    reply: ReplyView,
    decoded: Result<ResponseView, Seq<char>>,
)
    ensures
        settled(query, reply, decoded).query == query,
{
}

/// A transport failure settles the query with that failure, and the decoder
/// is not asked.
pub proof fn law_transport_failure_is_carried(
    query: Seq<char>,
    message: Seq<char>,
    decoded: Result<ResponseView, Seq<char>>,
)
    ensures
        after_reply(query, ReplyView::Failed(message)) is Done,
        settled(query, ReplyView::Failed(message), decoded) == (QueryResultView {
            response: Err(ErrorInfoView::Transport(message)),
            query,
        }),
{
}

/// A status outside the success range settles the query with that status,
/// and the decoder is not asked: what it would make of the body has no
/// bearing on the result.
pub proof fn law_failing_status_is_carried(
    query: Seq<char>,
    status: u16,
    body: Seq<u8>,
    decoded: Result<ResponseView, Seq<char>>,
)
    requires
        !is_success(status),
    ensures
        after_reply(query, ReplyView::Received { status, body }) is Done,
        settled(query, ReplyView::Received { status, body }, decoded) == (QueryResultView {
            response: Err(ErrorInfoView::HttpStatus(status)),
            query,
        }),
        settled(query, ReplyView::Received { status, body }, decoded).response->Err_0.status()
            == Some(status),
{
}

/// The decoder is asked exactly when a reply arrived with a status in the
/// success range, and it is handed the body of that reply.
pub proof fn law_decoder_sees_successful_bodies(query: Seq<char>, reply: ReplyView)
    ensures
        after_reply(query, reply) is Decode <==> (reply is Received && is_success(
            reply->status,
        )),
        after_reply(query, reply) is Decode ==> after_reply(query, reply)->Decode_0 == (
            AwaitingDecodeView { query, body: reply->body }
        ),
{
}

/// A successful reply ends in what the decoder makes of its body: the
/// response, or a decode failure; a decode failure carries no status.
pub proof fn law_successful_reply_is_decoded(
    query: Seq<char>,
    status: u16,
    body: Seq<u8>,
    decoded: Result<ResponseView, Seq<char>>,
)
    requires
        is_success(status),
    ensures
        settled(query, ReplyView::Received { status, body }, decoded).response == (match decoded {
            Ok(reply) => Ok::<ResponseView, ErrorInfoView>(reply),
            Err(message) => Err(ErrorInfoView::Decode(message)),
        }),
        decoded is Err ==> settled(
            query,
            ReplyView::Received { status, body },
            decoded,
        ).response->Err_0.status() is None,
{
}

impl<'a> AwaitingReply<'a> {
    /// The state of a query that is about to be sent.
    pub fn new(query: &'a str) -> (call: Self)
        ensures
            call@ == query@,
    {
        AwaitingReply { query }
    }

    /// The query that is being searched for.
    pub fn query(&self) -> (query: &'a str)
        ensures
            query@ == self@,
    {
        self.query
    }

    /// The GET request to send: the fixed address, with the query as the
    /// parameter `q`.
    pub fn get(&self) -> (get: SearchRequest<'a>)
        ensures
            get@ == search_request(self@),
    {
        SearchRequest {
            url: "https://dummyjson.com/products/search",
            parameter: "q",
            value: self.query,
        }
    }

    /// Takes the transport's reply and says what comes next.
    pub fn on_reply(self, reply: Reply) -> (step: Step<'a>)
        ensures
            step@ == after_reply(self@, reply@),
    {
        match reply {
            Reply::Failed(message) => Step::Done(
                QueryResult { response: Err(ErrorInfo::Transport(message)), query: self.query },
            ),
            Reply::Received { status, body } => {
                if status_is_success(status) {
                    Step::Decode(AwaitingDecode { query: self.query, body })
                } else {
                    Step::Done(
                        QueryResult {
                            response: Err(ErrorInfo::HttpStatus(status)),
                            query: self.query,
                        },
                    )
                }
            },
        }
    }
}

impl<'a> AwaitingDecode<'a> {
    /// The query that is being searched for.
    pub fn query(&self) -> (query: &'a str)
        ensures
            query@ == self@.query,
    {
        self.query
    }

    /// The bytes to decode: the body of the reply, untouched.
    pub fn body(&self) -> (body: &Vec<u8>)
        ensures
            body@ == self@.body,
    {
        &self.body
    }

    /// Takes the decoder's answer and settles the query.
    pub fn on_decoded(self, decoded: Result<Response, String>) -> (result: QueryResult<'a>)
        ensures
            result@ == after_decode(self@.query, decoded_of(decoded)),
    {
        match decoded {
            Ok(reply) => QueryResult { response: Ok(reply), query: self.query },
            Err(message) => QueryResult {
                response: Err(ErrorInfo::Decode(message)),
                query: self.query,
            },
        }
    }
}

} // verus!
