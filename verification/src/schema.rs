//! The request and response values of the service, and their views.

use vstd::prelude::*;

verus! {

/// An operation on the counter stored under a key.
#[derive(Clone, Copy, Debug, PartialEq, Eq, Structural)]
pub enum Method {
    Create,
    Delete,
    Get,
    Increment,
}

/// An operation on the text stored under a key.
#[derive(Clone, Debug, PartialEq, Eq)]
pub enum TextMethod {
    Delete { key: String },
    Read { key: String },
    Write { key: String, value: String },
}

/// A request to the service.
#[derive(Clone, Debug, PartialEq, Eq)]
pub enum Query {
    Counter { key: String, method: Method },
    Text(TextMethod),
}

/// A value that the service returns. It does not say which request it
/// answers.
#[derive(Clone, Debug, PartialEq, Eq)]
pub enum Response {
    Counter(u64),
    Text(String),
}

/// What travels back for every call: a response, or the message of a
/// failure that the service reports.
pub type Envelope = Result<Response, String>;

/// A `TextMethod` with its strings as character sequences.
pub enum TextMethodView {
    Delete { key: Seq<char> },
    Read { key: Seq<char> },
    Write { key: Seq<char>, value: Seq<char> },
}

/// A `Query` with its strings as character sequences.
pub enum QueryView {
    Counter { key: Seq<char>, method: Method },
    Text(TextMethodView),
}

/// A `Response` with its string as a character sequence.
pub enum ResponseView {
    Counter(u64),
    Text(Seq<char>),
}

/// An `Envelope` with its strings as character sequences.
pub type EnvelopeView = Result<ResponseView, Seq<char>>;

impl View for TextMethod {
    type V = TextMethodView;

    open spec fn view(&self) -> TextMethodView {
        match self {
            TextMethod::Delete { key } => TextMethodView::Delete { key: key@ },
            TextMethod::Read { key } => TextMethodView::Read { key: key@ },
            TextMethod::Write { key, value } => TextMethodView::Write { key: key@, value: value@ },
        }
    }
}

impl View for Query {
    type V = QueryView;

    open spec fn view(&self) -> QueryView {
        match self {
            Query::Counter { key, method } => QueryView::Counter { key: key@, method: *method },
            Query::Text(text) => QueryView::Text(text@),
        }
    }
}

impl View for Response {
    type V = ResponseView;

    open spec fn view(&self) -> ResponseView {
        match self {
            Response::Counter(n) => ResponseView::Counter(*n),
            Response::Text(s) => ResponseView::Text(s@),
        }
    }
}

/// The view of an envelope.
pub open spec fn envelope_view(envelope: Envelope) -> EnvelopeView {
    match envelope {
        Ok(response) => Ok(response@),
        Err(message) => Err(message@),
    }
}

} // verus!
