//! The typed client: one method per remote operation.
//!
//! A call builds the request, encodes it, hands the bytes to the transport,
//! decodes the reply envelope and narrows it to the variant that the
//! operation answers with. The transport is any function from request bytes
//! to reply bytes or a failure message; the client makes exactly one call of
//! it per operation.

use vstd::prelude::*;
use crate::cbor::text_fits;
use crate::codec::{
    decode_envelope, encode_query, envelope_bytes, envelope_round_trip, parse_envelope,
    parse_query, query_bytes,
};
use crate::schema::{
    envelope_view, Envelope, EnvelopeView, Method, Query, QueryView, Response, ResponseView,
    TextMethod, TextMethodView,
};

verus! {

/// Why a call gave no value. Encoding a request cannot fail, so no kind
/// stands for that.
#[derive(Clone, Debug, PartialEq, Eq)]
pub enum ClientError {
    /// The transport failed; its message.
    Transport(String),
    /// The reply is not the encoding of an envelope.
    Decoding,
    /// The reply is a response of another variant than the operation answers
    /// with; the response.
    UnexpectedVariant(Response),
    /// The service reported a failure; its message, unchanged.
    Server(String),
}

/// A `ClientError` with its strings as character sequences.
pub enum ClientErrorView {
    Transport(Seq<char>),
    Decoding,
    UnexpectedVariant(ResponseView),
    Server(Seq<char>),
}

impl View for ClientError {
    type V = ClientErrorView;

    open spec fn view(&self) -> ClientErrorView {
        match self {
            ClientError::Transport(cause) => ClientErrorView::Transport(cause@),
            ClientError::Decoding => ClientErrorView::Decoding,
            ClientError::UnexpectedVariant(response) => ClientErrorView::UnexpectedVariant(
                response@,
            ),
            ClientError::Server(message) => ClientErrorView::Server(message@),
        }
    }
}

/// The message of an error: the transport's or the service's own words
/// where it has them, else a fixed sentence for its kind.
pub open spec fn message_text(error: ClientErrorView) -> Seq<char> {
    match error {
        ClientErrorView::Transport(cause) => cause,
        ClientErrorView::Decoding => "Failed to deserialize response"@,
        ClientErrorView::UnexpectedVariant(ResponseView::Counter(_)) =>
            "Response from server was not a text"@,
        ClientErrorView::UnexpectedVariant(ResponseView::Text(_)) =>
            "Response from server was not a counter"@,
        ClientErrorView::Server(message) => message,
    }
}

impl ClientError {
    /// The message of the error. A server error gives the service's message
    /// unchanged.
    pub fn message(&self) -> (text: String)
        ensures
            text@ == message_text(self@),
    {
        match self {
            ClientError::Transport(cause) => cause.clone(),
            ClientError::Decoding => "Failed to deserialize response".to_owned(),
            ClientError::UnexpectedVariant(Response::Counter(_)) =>
                "Response from server was not a text".to_owned(),
            ClientError::UnexpectedVariant(Response::Text(_)) =>
                "Response from server was not a counter".to_owned(),
            ClientError::Server(message) => message.clone(),
        }
    }
}

/// What the transport hands back: the reply bytes, or its failure message.
pub type Reply = Result<Vec<u8>, String>;

/// A `Reply` as sequences.
pub type ReplyView = Result<Seq<u8>, Seq<char>>;

/// The view of a reply.
pub open spec fn reply_view(reply: Reply) -> ReplyView {
    match reply {
        Ok(bytes) => Ok(bytes@),
        Err(cause) => Err(cause@),
    }
}

/// The view of the result of a text operation.
pub open spec fn text_result_view(result: Result<String, ClientError>) -> Result<
    Seq<char>,
    ClientErrorView,
> {
    match result {
        Ok(value) => Ok(value@),
        Err(error) => Err(error@),
    }
}

/// The view of the result of a counter operation.
pub open spec fn counter_result_view(result: Result<u64, ClientError>) -> Result<
    u64,
    ClientErrorView,
> {
    match result {
        Ok(value) => Ok(value),
        Err(error) => Err(error@),
    }
}

/// What a text operation makes of an envelope: the text of a text response;
/// a counter response is of the wrong variant; a reported failure keeps its
/// message.
pub open spec fn narrow_text(envelope: EnvelopeView) -> Result<Seq<char>, ClientErrorView> {
    match envelope {
        Ok(ResponseView::Text(value)) => Ok(value),
        Ok(ResponseView::Counter(n)) => Err(
            ClientErrorView::UnexpectedVariant(ResponseView::Counter(n)),
        ),
        Err(message) => Err(ClientErrorView::Server(message)),
    }
}

/// What a counter operation makes of an envelope: the number of a counter
/// response; a text response is of the wrong variant; a reported failure
/// keeps its message.
pub open spec fn narrow_counter(envelope: EnvelopeView) -> Result<u64, ClientErrorView> {
    match envelope {
        Ok(ResponseView::Counter(n)) => Ok(n),
        Ok(ResponseView::Text(value)) => Err(
            ClientErrorView::UnexpectedVariant(ResponseView::Text(value)),
        ),
        Err(message) => Err(ClientErrorView::Server(message)),
    }
}

/// What a text operation returns for a reply of the transport.
pub open spec fn text_outcome(reply: ReplyView) -> Result<Seq<char>, ClientErrorView> {
    match reply {
        Err(cause) => Err(ClientErrorView::Transport(cause)),
        Ok(bytes) => match parse_envelope(bytes) {
            Some(envelope) => narrow_text(envelope),
            None => Err(ClientErrorView::Decoding),
        },
    }
}

/// What a counter operation returns for a reply of the transport.
pub open spec fn counter_outcome(reply: ReplyView) -> Result<u64, ClientErrorView> {
    match reply {
        Err(cause) => Err(ClientErrorView::Transport(cause)),
        Ok(bytes) => match parse_envelope(bytes) {
            Some(envelope) => narrow_counter(envelope),
            None => Err(ClientErrorView::Decoding),
        },
    }
}

/// Narrows an envelope to the text that a text operation answers with.
pub fn expect_text(envelope: Envelope) -> (r: Result<String, ClientError>)
    ensures
        text_result_view(r) == narrow_text(envelope_view(envelope)),
{
    match envelope {
        Ok(Response::Text(value)) => Ok(value),
        Ok(Response::Counter(n)) => Err(ClientError::UnexpectedVariant(Response::Counter(n))),
        Err(message) => Err(ClientError::Server(message)),
    }
}

/// Narrows an envelope to the number that a counter operation answers with.
pub fn expect_counter(envelope: Envelope) -> (r: Result<u64, ClientError>)
    ensures
        counter_result_view(r) == narrow_counter(envelope_view(envelope)),
{
    match envelope {
        Ok(Response::Counter(n)) => Ok(n),
        Ok(Response::Text(value)) => Err(ClientError::UnexpectedVariant(Response::Text(value))),
        Err(message) => Err(ClientError::Server(message)),
    }
}

/// The result of a text operation, from what the transport handed back.
pub fn text_reply(reply: Reply) -> (r: Result<String, ClientError>)
    ensures
        text_result_view(r) == text_outcome(reply_view(reply)),
{
    match reply {
        Err(cause) => Err(ClientError::Transport(cause)),
        Ok(bytes) => match decode_envelope(bytes.as_slice()) {
            Ok(envelope) => expect_text(envelope),
            Err(_) => Err(ClientError::Decoding),
        },
    }
}

/// The result of a counter operation, from what the transport handed back.
pub fn counter_reply(reply: Reply) -> (r: Result<u64, ClientError>)
    ensures
        counter_result_view(r) == counter_outcome(reply_view(reply)),
{
    match reply {
        Err(cause) => Err(ClientError::Transport(cause)),
        Ok(bytes) => match decode_envelope(bytes.as_slice()) {
            Ok(envelope) => expect_counter(envelope),
            Err(_) => Err(ClientError::Decoding),
        },
    }
}

/// The request that deletes the text under `key`.
pub open spec fn text_delete_query(key: Seq<char>) -> QueryView {
    QueryView::Text(TextMethodView::Delete { key })
}

/// The request that reads the text under `key`.
pub open spec fn text_read_query(key: Seq<char>) -> QueryView {
    QueryView::Text(TextMethodView::Read { key })
}

/// The request that stores `value` as the text under `key`.
pub open spec fn text_write_query(key: Seq<char>, value: Seq<char>) -> QueryView {
    QueryView::Text(TextMethodView::Write { key, value })
}

/// The request that applies `method` to the counter under `key`.
pub open spec fn counter_query_of(method: Method, key: Seq<char>) -> QueryView {
    QueryView::Counter { key, method }
}

/// The bytes of the request that deletes the text under `key`.
pub fn text_delete_request(key: &str) -> (bytes: Vec<u8>)
    ensures
        bytes@ == query_bytes(text_delete_query(key@)),
        parse_query(bytes@) == Some(text_delete_query(key@)),
{
    encode_query(&Query::Text(TextMethod::Delete { key: key.to_owned() }))
}

/// The bytes of the request that reads the text under `key`.
pub fn text_read_request(key: &str) -> (bytes: Vec<u8>)
    ensures
        bytes@ == query_bytes(text_read_query(key@)),
        parse_query(bytes@) == Some(text_read_query(key@)),
{
    encode_query(&Query::Text(TextMethod::Read { key: key.to_owned() }))
}

/// The bytes of the request that stores `value` as the text under `key`.
pub fn text_write_request(key: &str, value: &str) -> (bytes: Vec<u8>)
    ensures
        bytes@ == query_bytes(text_write_query(key@, value@)),
        parse_query(bytes@) == Some(text_write_query(key@, value@)),
{
    encode_query(
        &Query::Text(TextMethod::Write { key: key.to_owned(), value: value.to_owned() }),
    )
}

/// The bytes of the request that applies `method` to the counter under
/// `key`.
pub fn counter_request(method: Method, key: &str) -> (bytes: Vec<u8>)
    ensures
        bytes@ == query_bytes(counter_query_of(method, key@)),
        parse_query(bytes@) == Some(counter_query_of(method, key@)),
{
    encode_query(&Query::Counter { key: key.to_owned(), method })
}

/// A handle on the service: the transport that carries its calls.
pub struct Client<T: Fn(Vec<u8>) -> Reply> {
    transport: T,
}

impl<T: Fn(Vec<u8>) -> Reply> Client<T> {
    /// The transport of the client.
    pub closed spec fn transport(&self) -> T {
        self.transport
    }

    /// The transport takes every request.
    #[verifier::type_invariant]
    pub closed spec fn ready(&self) -> bool {
        forall|request: Vec<u8>| call_requires(self.transport, (request,))
    }

    /// One call of the transport, with the encoding of `query`, accounts for
    /// `result` as the result of a text operation.
    pub open spec fn text_call(
        &self,
        query: QueryView,
        result: Result<String, ClientError>,
    ) -> bool {
        exists|request: Vec<u8>, reply: Reply|
            {
                &&& request@ == query_bytes(query)
                &&& #[trigger] call_ensures(self.transport(), (request,), reply)
                &&& text_result_view(result) == text_outcome(reply_view(reply))
            }
    }

    /// One call of the transport, with the encoding of `query`, accounts for
    /// `result` as the result of a counter operation.
    pub open spec fn counter_call(
        &self,
        query: QueryView,
        result: Result<u64, ClientError>,
    ) -> bool {
        exists|request: Vec<u8>, reply: Reply|
            {
                &&& request@ == query_bytes(query)
                &&& #[trigger] call_ensures(self.transport(), (request,), reply)
                &&& counter_result_view(result) == counter_outcome(reply_view(reply))
            }
    }

    /// A client over a transport that takes every request.
    pub fn new(transport: T) -> (client: Self)
        requires
            forall|request: Vec<u8>| call_requires(transport, (request,)),
        ensures
            client.transport() == transport,
    {
        Client { transport }
    }

    /// Hands one request to the transport and returns what it hands back.
    fn exchange(&self, request: Vec<u8>) -> (reply: Reply)
        ensures
            call_ensures(self.transport(), (request,), reply),
    {
        proof {
            use_type_invariant(self);
        }
        (self.transport)(request)
    }

    /// Deletes the text under `key`. One call of the transport is made, with
    /// the encoding of the delete request; the result is what `text_outcome`
    /// gives for the reply.
    pub fn text_delete(&self, key: &str) -> (r: Result<String, ClientError>)
        ensures
            self.text_call(text_delete_query(key@), r),
    {
        let reply = self.exchange(text_delete_request(key));
        text_reply(reply)
    }

    /// Reads the text under `key`. One call of the transport is made, with
    /// the encoding of the read request; the result is what `text_outcome`
    /// gives for the reply.
    pub fn text_read(&self, key: &str) -> (r: Result<String, ClientError>)
        ensures
            self.text_call(text_read_query(key@), r),
    {
        let reply = self.exchange(text_read_request(key));
        text_reply(reply)
    }

    /// Stores `value` as the text under `key`. One call of the transport is
    /// made, with the encoding of the write request; the result is what
    /// `text_outcome` gives for the reply.
    pub fn text_write(&self, key: &str, value: &str) -> (r: Result<String, ClientError>)
        ensures
            self.text_call(text_write_query(key@, value@), r),
    {
        let reply = self.exchange(text_write_request(key, value));
        text_reply(reply)
    }

    /// Applies `method` to the counter under `key`. One call of the
    /// transport is made, with the encoding of the counter request; the
    /// result is what `counter_outcome` gives for the reply.
    pub fn counter_query(&self, method: Method, key: &str) -> (r: Result<u64, ClientError>)
        ensures
            self.counter_call(counter_query_of(method, key@), r),
    {
        let reply = self.exchange(counter_request(method, key));
        counter_reply(reply)
    }
}

/// A text response to a counter operation is an error of the wrong variant
/// that carries the response: never a number.
pub proof fn counter_rejects_text_response(value: Seq<char>)
    requires
        text_fits(value),
    ensures
        counter_outcome(Ok(envelope_bytes(Ok(ResponseView::Text(value))))) == Err::<
            u64,
            ClientErrorView,
        >(ClientErrorView::UnexpectedVariant(ResponseView::Text(value))),
{
    envelope_round_trip(Ok(ResponseView::Text(value)));
}

/// A counter response to a text operation is an error of the wrong variant
/// that carries the response: never a text.
pub proof fn text_rejects_counter_response(n: u64)
    ensures
        text_outcome(Ok(envelope_bytes(Ok(ResponseView::Counter(n))))) == Err::<
            Seq<char>,
            ClientErrorView,
        >(ClientErrorView::UnexpectedVariant(ResponseView::Counter(n))),
{
    envelope_round_trip(Ok(ResponseView::Counter(n)));
}

/// A failure that the service reports reaches the caller of every operation
/// as a server error with the same message.
pub proof fn server_failure_keeps_message(message: Seq<char>)
    requires
        text_fits(message),
    ensures
        text_outcome(Ok(envelope_bytes(Err(message)))) == Err::<Seq<char>, ClientErrorView>(
            ClientErrorView::Server(message),
        ),
        counter_outcome(Ok(envelope_bytes(Err(message)))) == Err::<u64, ClientErrorView>(
            ClientErrorView::Server(message),
        ),
{
    envelope_round_trip(Err(message));
}

/// A reply that is no encoding of an envelope is a decoding error for every
/// operation: no server error, no transport error and no value.
pub proof fn undecodable_reply_is_decoding_error(bytes: Seq<u8>)
    requires
        parse_envelope(bytes) is None,
    ensures
        text_outcome(Ok(bytes)) == Err::<Seq<char>, ClientErrorView>(ClientErrorView::Decoding),
        counter_outcome(Ok(bytes)) == Err::<u64, ClientErrorView>(ClientErrorView::Decoding),
{
}

/// A response of the variant that the operation answers with reaches the
/// caller as its value.
pub proof fn expected_response_is_returned(value: Seq<char>, n: u64)
    requires
        text_fits(value),
    ensures
        text_outcome(Ok(envelope_bytes(Ok(ResponseView::Text(value))))) == Ok::<
            Seq<char>,
            ClientErrorView,
        >(value),
        counter_outcome(Ok(envelope_bytes(Ok(ResponseView::Counter(n))))) == Ok::<
            u64,
            ClientErrorView,
        >(n),
{
    envelope_round_trip(Ok(ResponseView::Text(value)));
    envelope_round_trip(Ok(ResponseView::Counter(n)));
}

/// A failure of the transport reaches the caller of every operation as a
/// transport error with the same message.
pub proof fn transport_failure_keeps_message(cause: Seq<char>)
    ensures
        text_outcome(Err(cause)) == Err::<Seq<char>, ClientErrorView>(
            ClientErrorView::Transport(cause),
        ),
        counter_outcome(Err(cause)) == Err::<u64, ClientErrorView>(
            ClientErrorView::Transport(cause),
        ),
{
}

/// Over a transport that hands back the same reply whatever it is asked,
/// the result of a text operation is what `text_outcome` gives for that
/// reply, whichever the operation and its arguments.
pub proof fn text_result_over_constant_transport<T: Fn(Vec<u8>) -> Reply>(
    client: Client<T>,
    query: QueryView,
    result: Result<String, ClientError>,
    reply: ReplyView,
)
    requires
        client.text_call(query, result),
        forall|request: Vec<u8>, got: Reply| #[trigger]
            call_ensures(client.transport(), (request,), got) ==> reply_view(got) == reply,
    ensures
        text_result_view(result) == text_outcome(reply),
{
}

/// Over a transport that hands back the same reply whatever it is asked,
/// the result of a counter operation is what `counter_outcome` gives for
/// that reply, whichever the operation and its arguments.
pub proof fn counter_result_over_constant_transport<T: Fn(Vec<u8>) -> Reply>(
    client: Client<T>,
    query: QueryView,
    result: Result<u64, ClientError>,
    reply: ReplyView,
)
    requires
        client.counter_call(query, result),
        forall|request: Vec<u8>, got: Reply| #[trigger]
            call_ensures(client.transport(), (request,), got) ==> reply_view(got) == reply,
    ensures
        counter_result_view(result) == counter_outcome(reply),
{
}

} // verus!
