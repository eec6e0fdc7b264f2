//! The encoding of requests and reply envelopes, and their decoders.
//!
//! A value is written as the CBOR that a self-describing serializer gives an
//! enum: a unit variant is its name as text; a variant with content is a map
//! of one entry from its name to the content; named fields are a map from
//! field name to value, in the order of declaration. The decoders accept
//! exactly what the encoders write, and nothing behind it.

use vstd::prelude::*;
use vstd::utf8::{is_ascii_chars, is_ascii_chars_encode_utf8};
use crate::cbor::{
    expect, expect_bytes, has_at, has_at_concat, has_at_join, has_at_self, has_at_whole,
    head_bytes, head_bytes_of_parse_head, parse_head_of_head_bytes, parse_text,
    parse_text_of_text_bytes, parse_unsigned, read_text, read_unsigned, text_bytes,
    text_bytes_of_parse_text, text_fits, write_head, write_text, MAJOR_MAP, MAJOR_UNSIGNED,
};
use crate::schema::{
    envelope_view, Envelope, EnvelopeView, Method, Query, QueryView, Response, ResponseView,
    TextMethod, TextMethodView,
};

verus! {

/// The fixed byte strings of the format: the map heads and the names of
/// variants and fields, each name a text item in ASCII.
#[derive(Clone, Copy, Debug, PartialEq, Eq, Structural)]
pub enum Mark {
    /// A map of one entry, the text `Counter`, a map of two entries, the text `key`.
    CounterQuery,
    /// The text `method`.
    MethodField,
    /// A map of one entry, the text `Text`.
    TextQuery,
    /// A map of one entry, the text `Delete`, a map of one entry, the text `key`.
    DeleteText,
    /// A map of one entry, the text `Read`, a map of one entry, the text `key`.
    ReadText,
    /// A map of one entry, the text `Write`, a map of two entries, the text `key`.
    WriteText,
    /// The text `value`.
    ValueField,
    /// The text `Create`.
    Create,
    /// The text `Delete`.
    Delete,
    /// The text `Get`.
    Get,
    /// The text `Increment`.
    Increment,
    /// A map of one entry, the text `Counter`.
    CounterResponse,
    /// A map of one entry, the text `Text`.
    TextResponse,
    /// A map of one entry, the text `Ok`.
    Success,
    /// A map of one entry, the text `Err`.
    Failure,
}

/// The bytes of a mark.
pub open spec fn mark(m: Mark) -> Seq<u8> {
    match m {
        Mark::CounterQuery => seq![
            0xa1u8, 0x67u8, 0x43u8, 0x6fu8, 0x75u8, 0x6eu8, 0x74u8, 0x65u8,
            0x72u8, 0xa2u8, 0x63u8, 0x6bu8, 0x65u8, 0x79u8,
        ],
        Mark::MethodField => seq![
            0x66u8, 0x6du8, 0x65u8, 0x74u8, 0x68u8, 0x6fu8, 0x64u8,
        ],
        Mark::TextQuery => seq![
            0xa1u8, 0x64u8, 0x54u8, 0x65u8, 0x78u8, 0x74u8,
        ],
        Mark::DeleteText => seq![
            0xa1u8, 0x66u8, 0x44u8, 0x65u8, 0x6cu8, 0x65u8, 0x74u8, 0x65u8,
            0xa1u8, 0x63u8, 0x6bu8, 0x65u8, 0x79u8,
        ],
        Mark::ReadText => seq![
            0xa1u8, 0x64u8, 0x52u8, 0x65u8, 0x61u8, 0x64u8, 0xa1u8, 0x63u8, 0x6bu8, 0x65u8, 0x79u8,
        ],
        Mark::WriteText => seq![
            0xa1u8, 0x65u8, 0x57u8, 0x72u8, 0x69u8, 0x74u8, 0x65u8, 0xa2u8,
            0x63u8, 0x6bu8, 0x65u8, 0x79u8,
        ],
        Mark::ValueField => seq![
            0x65u8, 0x76u8, 0x61u8, 0x6cu8, 0x75u8, 0x65u8,
        ],
        Mark::Create => seq![
            0x66u8, 0x43u8, 0x72u8, 0x65u8, 0x61u8, 0x74u8, 0x65u8,
        ],
        Mark::Delete => seq![
            0x66u8, 0x44u8, 0x65u8, 0x6cu8, 0x65u8, 0x74u8, 0x65u8,
        ],
        Mark::Get => seq![
            0x63u8, 0x47u8, 0x65u8, 0x74u8,
        ],
        Mark::Increment => seq![
            0x69u8, 0x49u8, 0x6eu8, 0x63u8, 0x72u8, 0x65u8, 0x6du8, 0x65u8, 0x6eu8, 0x74u8,
        ],
        Mark::CounterResponse => seq![
            0xa1u8, 0x67u8, 0x43u8, 0x6fu8, 0x75u8, 0x6eu8, 0x74u8, 0x65u8, 0x72u8,
        ],
        Mark::TextResponse => seq![
            0xa1u8, 0x64u8, 0x54u8, 0x65u8, 0x78u8, 0x74u8,
        ],
        Mark::Success => seq![
            0xa1u8, 0x62u8, 0x4fu8, 0x6bu8,
        ],
        Mark::Failure => seq![
            0xa1u8, 0x63u8, 0x45u8, 0x72u8, 0x72u8,
        ],
    }
}

/// The bytes of a mark, as a vector.
pub fn mark_bytes(m: Mark) -> (bytes: Vec<u8>)
    ensures
        bytes@ == mark(m),
{
    let bytes: Vec<u8> = match m {
        Mark::CounterQuery => vec![
            0xa1u8, 0x67u8, 0x43u8, 0x6fu8, 0x75u8, 0x6eu8, 0x74u8, 0x65u8,
            0x72u8, 0xa2u8, 0x63u8, 0x6bu8, 0x65u8, 0x79u8,
        ],
        Mark::MethodField => vec![
            0x66u8, 0x6du8, 0x65u8, 0x74u8, 0x68u8, 0x6fu8, 0x64u8,
        ],
        Mark::TextQuery => vec![
            0xa1u8, 0x64u8, 0x54u8, 0x65u8, 0x78u8, 0x74u8,
        ],
        Mark::DeleteText => vec![
            0xa1u8, 0x66u8, 0x44u8, 0x65u8, 0x6cu8, 0x65u8, 0x74u8, 0x65u8,
            0xa1u8, 0x63u8, 0x6bu8, 0x65u8, 0x79u8,
        ],
        Mark::ReadText => vec![
            0xa1u8, 0x64u8, 0x52u8, 0x65u8, 0x61u8, 0x64u8, 0xa1u8, 0x63u8, 0x6bu8, 0x65u8, 0x79u8,
        ],
        Mark::WriteText => vec![
            0xa1u8, 0x65u8, 0x57u8, 0x72u8, 0x69u8, 0x74u8, 0x65u8, 0xa2u8,
            0x63u8, 0x6bu8, 0x65u8, 0x79u8,
        ],
        Mark::ValueField => vec![
            0x65u8, 0x76u8, 0x61u8, 0x6cu8, 0x75u8, 0x65u8,
        ],
        Mark::Create => vec![
            0x66u8, 0x43u8, 0x72u8, 0x65u8, 0x61u8, 0x74u8, 0x65u8,
        ],
        Mark::Delete => vec![
            0x66u8, 0x44u8, 0x65u8, 0x6cu8, 0x65u8, 0x74u8, 0x65u8,
        ],
        Mark::Get => vec![
            0x63u8, 0x47u8, 0x65u8, 0x74u8,
        ],
        Mark::Increment => vec![
            0x69u8, 0x49u8, 0x6eu8, 0x63u8, 0x72u8, 0x65u8, 0x6du8, 0x65u8, 0x6eu8, 0x74u8,
        ],
        Mark::CounterResponse => vec![
            0xa1u8, 0x67u8, 0x43u8, 0x6fu8, 0x75u8, 0x6eu8, 0x74u8, 0x65u8, 0x72u8,
        ],
        Mark::TextResponse => vec![
            0xa1u8, 0x64u8, 0x54u8, 0x65u8, 0x78u8, 0x74u8,
        ],
        Mark::Success => vec![
            0xa1u8, 0x62u8, 0x4fu8, 0x6bu8,
        ],
        Mark::Failure => vec![
            0xa1u8, 0x63u8, 0x45u8, 0x72u8, 0x72u8,
        ],
    };
    assert(bytes@ =~= mark(m));
    bytes
}

/// Appends a mark to `out`.
pub fn write_mark(out: &mut Vec<u8>, m: Mark)
    ensures
        final(out)@ == old(out)@ + mark(m),
{
    let piece = mark_bytes(m);
    out.extend_from_slice(piece.as_slice());
    assert(out@ =~= old(out)@ + mark(m));
}

/// Tells whether the mark stands at `pos`, and if so where it ends.
pub fn read_mark(bytes: &[u8], pos: usize, m: Mark) -> (r: Option<usize>)
    ensures
        match r {
            Some(end) => expect(bytes@, pos as int, mark(m)) == Some(end as int),
            None => expect(bytes@, pos as int, mark(m)) is None,
        },
{
    let piece = mark_bytes(m);
    expect_bytes(bytes, pos, piece.as_slice())
}

/// A frame that does not decode: bytes that no value of the schema encodes
/// to, among them an unknown variant name, a truncated item and bytes left
/// over behind the value.
#[derive(Clone, Copy, Debug, PartialEq, Eq, Structural)]
pub struct DecodeError;

/// The mark that names a counter operation.
pub open spec fn method_mark(method: Method) -> Mark {
    match method {
        Method::Create => Mark::Create,
        Method::Delete => Mark::Delete,
        Method::Get => Mark::Get,
        Method::Increment => Mark::Increment,
    }
}

/// The encoding of a counter operation: its name.
pub open spec fn method_bytes(method: Method) -> Seq<u8> {
    mark(method_mark(method))
}

/// The encoding of a text operation.
pub open spec fn text_method_bytes(text: TextMethodView) -> Seq<u8> {
    match text {
        TextMethodView::Delete { key } => mark(Mark::DeleteText) + text_bytes(key),
        TextMethodView::Read { key } => mark(Mark::ReadText) + text_bytes(key),
        TextMethodView::Write { key, value } => mark(Mark::WriteText) + text_bytes(key) + mark(
            Mark::ValueField,
        ) + text_bytes(value),
    }
}

/// The encoding of a request.
pub open spec fn query_bytes(query: QueryView) -> Seq<u8> {
    match query {
        QueryView::Counter { key, method } => mark(Mark::CounterQuery) + text_bytes(key) + mark(
            Mark::MethodField,
        ) + method_bytes(method),
        QueryView::Text(text) => mark(Mark::TextQuery) + text_method_bytes(text),
    }
}

/// The encoding of a response.
pub open spec fn response_bytes(response: ResponseView) -> Seq<u8> {
    match response {
        ResponseView::Counter(n) => mark(Mark::CounterResponse) + head_bytes(MAJOR_UNSIGNED, n),
        ResponseView::Text(s) => mark(Mark::TextResponse) + text_bytes(s),
    }
}

/// The encoding of a reply envelope.
pub open spec fn envelope_bytes(envelope: EnvelopeView) -> Seq<u8> {
    match envelope {
        Ok(response) => mark(Mark::Success) + response_bytes(response),
        Err(message) => mark(Mark::Failure) + text_bytes(message),
    }
}

/// Every string of the text operation fits a text item. This holds of the
/// view of every `TextMethod`.
pub open spec fn text_method_fits(text: TextMethodView) -> bool {
    match text {
        TextMethodView::Delete { key } => text_fits(key),
        TextMethodView::Read { key } => text_fits(key),
        TextMethodView::Write { key, value } => text_fits(key) && text_fits(value),
    }
}

/// Every string of the request fits a text item. This holds of the view of
/// every `Query`.
pub open spec fn query_fits(query: QueryView) -> bool {
    match query {
        QueryView::Counter { key, method } => text_fits(key),
        QueryView::Text(text) => text_method_fits(text),
    }
}

/// Every string of the envelope fits a text item. This holds of the view of
/// every `Envelope`.
pub open spec fn envelope_fits(envelope: EnvelopeView) -> bool {
    match envelope {
        Ok(ResponseView::Counter(n)) => true,
        Ok(ResponseView::Text(s)) => text_fits(s),
        Err(message) => text_fits(message),
    }
}

/// The counter operation named at `pos`, and the index behind the name.
pub open spec fn parse_method(bytes: Seq<u8>, pos: int) -> Option<(Method, int)> {
    if has_at(bytes, pos, mark(Mark::Create)) {
        Some((Method::Create, pos + mark(Mark::Create).len()))
    } else if has_at(bytes, pos, mark(Mark::Delete)) {
        Some((Method::Delete, pos + mark(Mark::Delete).len()))
    } else if has_at(bytes, pos, mark(Mark::Get)) {
        Some((Method::Get, pos + mark(Mark::Get).len()))
    } else if has_at(bytes, pos, mark(Mark::Increment)) {
        Some((Method::Increment, pos + mark(Mark::Increment).len()))
    } else {
        None
    }
}

/// The text operation encoded at `pos`, and the index behind it.
pub open spec fn parse_text_method(bytes: Seq<u8>, pos: int) -> Option<(TextMethodView, int)> {
    if has_at(bytes, pos, mark(Mark::DeleteText)) {
        match parse_text(bytes, pos + mark(Mark::DeleteText).len()) {
            Some((key, end)) => Some((TextMethodView::Delete { key }, end)),
            None => None,
        }
    } else if has_at(bytes, pos, mark(Mark::ReadText)) {
        match parse_text(bytes, pos + mark(Mark::ReadText).len()) {
            Some((key, end)) => Some((TextMethodView::Read { key }, end)),
            None => None,
        }
    } else if has_at(bytes, pos, mark(Mark::WriteText)) {
        match parse_text(bytes, pos + mark(Mark::WriteText).len()) {
            Some((key, field)) => if has_at(bytes, field, mark(Mark::ValueField)) {
                match parse_text(bytes, field + mark(Mark::ValueField).len()) {
                    Some((value, end)) => Some((TextMethodView::Write { key, value }, end)),
                    None => None,
                }
            } else {
                None
            },
            None => None,
        }
    } else {
        None
    }
}

/// The request encoded at `pos`, and the index behind it.
pub open spec fn parse_query_at(bytes: Seq<u8>, pos: int) -> Option<(QueryView, int)> {
    if has_at(bytes, pos, mark(Mark::CounterQuery)) {
        match parse_text(bytes, pos + mark(Mark::CounterQuery).len()) {
            Some((key, field)) => if has_at(bytes, field, mark(Mark::MethodField)) {
                match parse_method(bytes, field + mark(Mark::MethodField).len()) {
                    Some((method, end)) => Some((QueryView::Counter { key, method }, end)),
                    None => None,
                }
            } else {
                None
            },
            None => None,
        }
    } else if has_at(bytes, pos, mark(Mark::TextQuery)) {
        match parse_text_method(bytes, pos + mark(Mark::TextQuery).len()) {
            Some((text, end)) => Some((QueryView::Text(text), end)),
            None => None,
        }
    } else {
        None
    }
}

/// The request that the whole of `bytes` encodes, if there is one.
pub open spec fn parse_query(bytes: Seq<u8>) -> Option<QueryView> {
    match parse_query_at(bytes, 0) {
        Some((query, end)) => if end == bytes.len() {
            Some(query)
        } else {
            None
        },
        None => None,
    }
}

/// The response encoded at `pos`, and the index behind it.
pub open spec fn parse_response(bytes: Seq<u8>, pos: int) -> Option<(ResponseView, int)> {
    if has_at(bytes, pos, mark(Mark::CounterResponse)) {
        match parse_unsigned(bytes, pos + mark(Mark::CounterResponse).len()) {
            Some((n, end)) => Some((ResponseView::Counter(n), end)),
            None => None,
        }
    } else if has_at(bytes, pos, mark(Mark::TextResponse)) {
        match parse_text(bytes, pos + mark(Mark::TextResponse).len()) {
            Some((s, end)) => Some((ResponseView::Text(s), end)),
            None => None,
        }
    } else {
        None
    }
}

/// The envelope encoded at `pos`, and the index behind it.
pub open spec fn parse_envelope_at(bytes: Seq<u8>, pos: int) -> Option<(EnvelopeView, int)> {
    if has_at(bytes, pos, mark(Mark::Success)) {
        match parse_response(bytes, pos + mark(Mark::Success).len()) {
            Some((response, end)) => Some((Ok(response), end)),
            None => None,
        }
    } else if has_at(bytes, pos, mark(Mark::Failure)) {
        match parse_text(bytes, pos + mark(Mark::Failure).len()) {
            Some((message, end)) => Some((Err(message), end)),
            None => None,
        }
    } else {
        None
    }
}

/// The envelope that the whole of `bytes` encodes, if there is one.
pub open spec fn parse_envelope(bytes: Seq<u8>) -> Option<EnvelopeView> {
    match parse_envelope_at(bytes, 0) {
        Some((envelope, end)) => if end == bytes.len() {
            Some(envelope)
        } else {
            None
        },
        None => None,
    }
}

/// The mark that names a counter operation.
fn mark_of_method(method: Method) -> (m: Mark)
    ensures
        m == method_mark(method),
{
    match method {
        Method::Create => Mark::Create,
        Method::Delete => Mark::Delete,
        Method::Get => Mark::Get,
        Method::Increment => Mark::Increment,
    }
}

/// Appends the encoding of a text operation to `out`.
fn write_text_method(out: &mut Vec<u8>, text: &TextMethod)
    ensures
        final(out)@ == old(out)@ + text_method_bytes(text@),
        text_method_fits(text@),
{
    match text {
        TextMethod::Delete { key } => {
            write_mark(out, Mark::DeleteText);
            write_text(out, key.as_str());
        },
        TextMethod::Read { key } => {
            write_mark(out, Mark::ReadText);
            write_text(out, key.as_str());
        },
        TextMethod::Write { key, value } => {
            write_mark(out, Mark::WriteText);
            write_text(out, key.as_str());
            write_mark(out, Mark::ValueField);
            write_text(out, value.as_str());
        },
    }
    assert(out@ =~= old(out)@ + text_method_bytes(text@));
}

/// Encodes a request. Every request has an encoding.
pub fn encode_query(query: &Query) -> (bytes: Vec<u8>)
    ensures
        bytes@ == query_bytes(query@),
        query_fits(query@),
        parse_query(bytes@) == Some(query@),
{
    let mut out: Vec<u8> = Vec::new();
    match query {
        Query::Counter { key, method } => {
            write_mark(&mut out, Mark::CounterQuery);
            write_text(&mut out, key.as_str());
            write_mark(&mut out, Mark::MethodField);
            write_mark(&mut out, mark_of_method(*method));
        },
        Query::Text(text) => {
            write_mark(&mut out, Mark::TextQuery);
            write_text_method(&mut out, text);
        },
    }
    assert(out@ =~= query_bytes(query@));
    proof {
        query_round_trip(query@);
    }
    out
}

/// Encodes a reply envelope. Every envelope has an encoding.
pub fn encode_envelope(envelope: &Envelope) -> (bytes: Vec<u8>)
    ensures
        bytes@ == envelope_bytes(envelope_view(*envelope)),
        envelope_fits(envelope_view(*envelope)),
        parse_envelope(bytes@) == Some(envelope_view(*envelope)),
{
    let mut out: Vec<u8> = Vec::new();
    match envelope {
        Ok(Response::Counter(n)) => {
            write_mark(&mut out, Mark::Success);
            write_mark(&mut out, Mark::CounterResponse);
            write_head(&mut out, MAJOR_UNSIGNED, *n);
        },
        Ok(Response::Text(s)) => {
            write_mark(&mut out, Mark::Success);
            write_mark(&mut out, Mark::TextResponse);
            write_text(&mut out, s.as_str());
        },
        Err(message) => {
            write_mark(&mut out, Mark::Failure);
            write_text(&mut out, message.as_str());
        },
    }
    assert(out@ =~= envelope_bytes(envelope_view(*envelope)));
    proof {
        envelope_round_trip(envelope_view(*envelope));
    }
    out
}

/// Reads the counter operation named at `pos`.
fn read_method(bytes: &[u8], pos: usize) -> (r: Option<(Method, usize)>)
    ensures
        match r {
            Some((method, end)) => parse_method(bytes@, pos as int) == Some((method, end as int)),
            None => parse_method(bytes@, pos as int) is None,
        },
{
    if let Some(end) = read_mark(bytes, pos, Mark::Create) {
        Some((Method::Create, end))
    } else if let Some(end) = read_mark(bytes, pos, Mark::Delete) {
        Some((Method::Delete, end))
    } else if let Some(end) = read_mark(bytes, pos, Mark::Get) {
        Some((Method::Get, end))
    } else if let Some(end) = read_mark(bytes, pos, Mark::Increment) {
        Some((Method::Increment, end))
    } else {
        None
    }
}

/// Reads the text operation encoded at `pos`.
fn read_text_method(bytes: &[u8], pos: usize) -> (r: Option<(TextMethod, usize)>)
    ensures
        match r {
            Some((text, end)) => parse_text_method(bytes@, pos as int) == Some(
                (text@, end as int),
            ),
            None => parse_text_method(bytes@, pos as int) is None,
        },
{
    if let Some(start) = read_mark(bytes, pos, Mark::DeleteText) {
        match read_text(bytes, start) {
            Some((key, end)) => Some((TextMethod::Delete { key }, end)),
            None => None,
        }
    } else if let Some(start) = read_mark(bytes, pos, Mark::ReadText) {
        match read_text(bytes, start) {
            Some((key, end)) => Some((TextMethod::Read { key }, end)),
            None => None,
        }
    } else if let Some(start) = read_mark(bytes, pos, Mark::WriteText) {
        let (key, field) = match read_text(bytes, start) {
            Some(found) => found,
            None => { return None; },
        };
        let start = match read_mark(bytes, field, Mark::ValueField) {
            Some(start) => start,
            None => { return None; },
        };
        match read_text(bytes, start) {
            Some((value, end)) => Some((TextMethod::Write { key, value }, end)),
            None => None,
        }
    } else {
        None
    }
}

/// Reads the request encoded at `pos`.
fn read_query(bytes: &[u8], pos: usize) -> (r: Option<(Query, usize)>)
    ensures
        match r {
            Some((query, end)) => parse_query_at(bytes@, pos as int) == Some((query@, end as int)),
            None => parse_query_at(bytes@, pos as int) is None,
        },
{
    if let Some(start) = read_mark(bytes, pos, Mark::CounterQuery) {
        let (key, field) = match read_text(bytes, start) {
            Some(found) => found,
            None => { return None; },
        };
        let start = match read_mark(bytes, field, Mark::MethodField) {
            Some(start) => start,
            None => { return None; },
        };
        match read_method(bytes, start) {
            Some((method, end)) => Some((Query::Counter { key, method }, end)),
            None => None,
        }
    } else if let Some(start) = read_mark(bytes, pos, Mark::TextQuery) {
        match read_text_method(bytes, start) {
            Some((text, end)) => Some((Query::Text(text), end)),
            None => None,
        }
    } else {
        None
    }
}

/// Reads the response encoded at `pos`.
fn read_response(bytes: &[u8], pos: usize) -> (r: Option<(Response, usize)>)
    ensures
        match r {
            Some((response, end)) => parse_response(bytes@, pos as int) == Some(
                (response@, end as int),
            ),
            None => parse_response(bytes@, pos as int) is None,
        },
{
    if let Some(start) = read_mark(bytes, pos, Mark::CounterResponse) {
        match read_unsigned(bytes, start) {
            Some((n, end)) => Some((Response::Counter(n), end)),
            None => None,
        }
    } else if let Some(start) = read_mark(bytes, pos, Mark::TextResponse) {
        match read_text(bytes, start) {
            Some((s, end)) => Some((Response::Text(s), end)),
            None => None,
        }
    } else {
        None
    }
}

/// Reads the envelope encoded at `pos`.
fn read_envelope(bytes: &[u8], pos: usize) -> (r: Option<(Envelope, usize)>)
    ensures
        match r {
            Some((envelope, end)) => parse_envelope_at(bytes@, pos as int) == Some(
                (envelope_view(envelope), end as int),
            ),
            None => parse_envelope_at(bytes@, pos as int) is None,
        },
{
    if let Some(start) = read_mark(bytes, pos, Mark::Success) {
        match read_response(bytes, start) {
            Some((response, end)) => Some((Ok(response), end)),
            None => None,
        }
    } else if let Some(start) = read_mark(bytes, pos, Mark::Failure) {
        match read_text(bytes, start) {
            Some((message, end)) => Some((Err(message), end)),
            None => None,
        }
    } else {
        None
    }
}

/// Decodes a request. It succeeds exactly on the bytes that encode a
/// request, with that request; all other bytes are a decode error.
pub fn decode_query(bytes: &[u8]) -> (r: Result<Query, DecodeError>)
    ensures
        match r {
            Ok(query) => parse_query(bytes@) == Some(query@) && bytes@ == query_bytes(query@),
            Err(_) => parse_query(bytes@) is None && forall|query: QueryView|
                query_fits(query) ==> #[trigger] query_bytes(query) != bytes@,
        },
{
    proof {
        if parse_query(bytes@) is Some {
            query_decodes_from_its_encoding_only(bytes@, parse_query(bytes@).unwrap());
        } else {
            assert forall|query: QueryView|
                query_fits(query) implies #[trigger] query_bytes(query) != bytes@ by {
                query_round_trip(query);
            }
        }
    }
    match read_query(bytes, 0) {
        Some((query, end)) => if end == bytes.len() {
            Ok(query)
        } else {
            Err(DecodeError)
        },
        None => Err(DecodeError),
    }
}

/// Decodes a reply envelope. It succeeds exactly on the bytes that encode
/// an envelope, with that envelope; all other bytes are a decode error.
pub fn decode_envelope(bytes: &[u8]) -> (r: Result<Envelope, DecodeError>)
    ensures
        match r {
            Ok(envelope) => parse_envelope(bytes@) == Some(envelope_view(envelope)) && bytes@
                == envelope_bytes(envelope_view(envelope)),
            Err(_) => parse_envelope(bytes@) is None && forall|envelope: EnvelopeView|
                envelope_fits(envelope) ==> #[trigger] envelope_bytes(envelope) != bytes@,
        },
{
    proof {
        if parse_envelope(bytes@) is Some {
            envelope_decodes_from_its_encoding_only(bytes@, parse_envelope(bytes@).unwrap());
        } else {
            assert forall|envelope: EnvelopeView|
                envelope_fits(envelope) implies #[trigger] envelope_bytes(envelope) != bytes@ by {
                envelope_round_trip(envelope);
            }
        }
    }
    match read_envelope(bytes, 0) {
        Some((envelope, end)) => if end == bytes.len() {
            Ok(envelope)
        } else {
            Err(DecodeError)
        },
        None => Err(DecodeError),
    }
}

/// Two marks that differ at some index cannot both stand at one place.
proof fn marks_exclude(bytes: Seq<u8>, pos: int, here: Mark, other: Mark, i: int)
    requires
        has_at(bytes, pos, mark(here)),
        0 <= i < mark(here).len(),
        0 <= i < mark(other).len(),
        mark(here)[i] != mark(other)[i],
    ensures
        !has_at(bytes, pos, mark(other)),
{
    assert(bytes[pos + i] == mark(here)[i]);
}

/// The name of a counter operation is read back as that operation, wherever
/// it stands.
pub proof fn parse_method_of_method_bytes(bytes: Seq<u8>, pos: int, method: Method)
    requires
        has_at(bytes, pos, method_bytes(method)),
    ensures
        parse_method(bytes, pos) == Some((method, pos + method_bytes(method).len())),
{
    match method {
        Method::Create => {},
        Method::Delete => {
            marks_exclude(bytes, pos, Mark::Delete, Mark::Create, 1);
        },
        Method::Get => {
            marks_exclude(bytes, pos, Mark::Get, Mark::Create, 0);
            marks_exclude(bytes, pos, Mark::Get, Mark::Delete, 0);
        },
        Method::Increment => {
            marks_exclude(bytes, pos, Mark::Increment, Mark::Create, 0);
            marks_exclude(bytes, pos, Mark::Increment, Mark::Delete, 0);
            marks_exclude(bytes, pos, Mark::Increment, Mark::Get, 0);
        },
    }
}

/// A key behind the mark that opens it is read back, wherever the two stand.
proof fn parse_text_behind_mark(bytes: Seq<u8>, pos: int, open: Mark, key: Seq<char>)
    requires
        text_fits(key),
        has_at(bytes, pos, mark(open) + text_bytes(key)),
    ensures
        has_at(bytes, pos, mark(open)),
        parse_text(bytes, pos + mark(open).len()) == Some(
            (key, pos + mark(open).len() + text_bytes(key).len()),
        ),
{
    has_at_concat(bytes, pos, mark(open), text_bytes(key));
    parse_text_of_text_bytes(bytes, pos + mark(open).len(), key);
}

/// The encoding of a write is read back as that write, wherever it stands.
proof fn parse_text_method_of_write(bytes: Seq<u8>, pos: int, key: Seq<char>, value: Seq<char>)
    requires
        text_fits(key),
        text_fits(value),
        has_at(bytes, pos, text_method_bytes(TextMethodView::Write { key, value })),
    ensures
        parse_text_method(bytes, pos) == Some(
            (
                TextMethodView::Write { key, value },
                pos + text_method_bytes(TextMethodView::Write { key, value }).len(),
            ),
        ),
{
    let open = mark(Mark::WriteText);
    let field = pos + open.len() + text_bytes(key).len();
    assert(text_method_bytes(TextMethodView::Write { key, value }) =~= (open + text_bytes(key))
        + (mark(Mark::ValueField) + text_bytes(value)));
    has_at_concat(
        bytes,
        pos,
        open + text_bytes(key),
        mark(Mark::ValueField) + text_bytes(value),
    );
    parse_text_behind_mark(bytes, pos, Mark::WriteText, key);
    parse_text_behind_mark(bytes, field, Mark::ValueField, value);
    marks_exclude(bytes, pos, Mark::WriteText, Mark::DeleteText, 1);
    marks_exclude(bytes, pos, Mark::WriteText, Mark::ReadText, 1);
}

/// The encoding of a text operation is read back as that operation,
/// wherever it stands.
pub proof fn parse_text_method_of_text_method_bytes(
    bytes: Seq<u8>,
    pos: int,
    text: TextMethodView,
)
    requires
        text_method_fits(text),
        has_at(bytes, pos, text_method_bytes(text)),
    ensures
        parse_text_method(bytes, pos) == Some((text, pos + text_method_bytes(text).len())),
{
    match text {
        TextMethodView::Delete { key } => {
            parse_text_behind_mark(bytes, pos, Mark::DeleteText, key);
        },
        TextMethodView::Read { key } => {
            parse_text_behind_mark(bytes, pos, Mark::ReadText, key);
            marks_exclude(bytes, pos, Mark::ReadText, Mark::DeleteText, 1);
        },
        TextMethodView::Write { key, value } => {
            parse_text_method_of_write(bytes, pos, key, value);
        },
    }
}

/// The encoding of a counter request is read back as that request, wherever
/// it stands.
proof fn parse_query_of_counter(bytes: Seq<u8>, pos: int, key: Seq<char>, method: Method)
    requires
        text_fits(key),
        has_at(bytes, pos, query_bytes(QueryView::Counter { key, method })),
    ensures
        parse_query_at(bytes, pos) == Some(
            (
                QueryView::Counter { key, method },
                pos + query_bytes(QueryView::Counter { key, method }).len(),
            ),
        ),
{
    let open = mark(Mark::CounterQuery);
    let field = pos + open.len() + text_bytes(key).len();
    assert(query_bytes(QueryView::Counter { key, method }) =~= (open + text_bytes(key)) + (mark(
        Mark::MethodField,
    ) + method_bytes(method)));
    has_at_concat(
        bytes,
        pos,
        open + text_bytes(key),
        mark(Mark::MethodField) + method_bytes(method),
    );
    parse_text_behind_mark(bytes, pos, Mark::CounterQuery, key);
    has_at_concat(bytes, field, mark(Mark::MethodField), method_bytes(method));
    parse_method_of_method_bytes(bytes, field + mark(Mark::MethodField).len(), method);
}

/// The encoding of a request is read back as that request, wherever it
/// stands.
pub proof fn parse_query_of_query_bytes(bytes: Seq<u8>, pos: int, query: QueryView)
    requires
        query_fits(query),
        has_at(bytes, pos, query_bytes(query)),
    ensures
        parse_query_at(bytes, pos) == Some((query, pos + query_bytes(query).len())),
{
    match query {
        QueryView::Counter { key, method } => {
            parse_query_of_counter(bytes, pos, key, method);
        },
        QueryView::Text(text) => {
            has_at_concat(bytes, pos, mark(Mark::TextQuery), text_method_bytes(text));
            marks_exclude(bytes, pos, Mark::TextQuery, Mark::CounterQuery, 1);
            parse_text_method_of_text_method_bytes(
                bytes,
                pos + mark(Mark::TextQuery).len(),
                text,
            );
        },
    }
}

/// The encoding of a response is read back as that response, wherever it
/// stands.
pub proof fn parse_response_of_response_bytes(bytes: Seq<u8>, pos: int, response: ResponseView)
    requires
        envelope_fits(Ok(response)),
        has_at(bytes, pos, response_bytes(response)),
    ensures
        parse_response(bytes, pos) == Some((response, pos + response_bytes(response).len())),
{
    match response {
        ResponseView::Counter(n) => {
            has_at_concat(bytes, pos, mark(Mark::CounterResponse), head_bytes(MAJOR_UNSIGNED, n));
            parse_head_of_head_bytes(
                bytes,
                pos + mark(Mark::CounterResponse).len(),
                MAJOR_UNSIGNED,
                n,
            );
        },
        ResponseView::Text(s) => {
            parse_text_behind_mark(bytes, pos, Mark::TextResponse, s);
            marks_exclude(bytes, pos, Mark::TextResponse, Mark::CounterResponse, 1);
        },
    }
}

/// The encoding of an envelope is read back as that envelope, wherever it
/// stands.
pub proof fn parse_envelope_of_envelope_bytes(bytes: Seq<u8>, pos: int, envelope: EnvelopeView)
    requires
        envelope_fits(envelope),
        has_at(bytes, pos, envelope_bytes(envelope)),
    ensures
        parse_envelope_at(bytes, pos) == Some((envelope, pos + envelope_bytes(envelope).len())),
{
    match envelope {
        Ok(response) => {
            has_at_concat(bytes, pos, mark(Mark::Success), response_bytes(response));
            parse_response_of_response_bytes(bytes, pos + mark(Mark::Success).len(), response);
        },
        Err(message) => {
            parse_text_behind_mark(bytes, pos, Mark::Failure, message);
            marks_exclude(bytes, pos, Mark::Failure, Mark::Success, 1);
        },
    }
}

/// Decoding inverts encoding on requests: the bytes that encode a request
/// decode, and to that request.
pub proof fn query_round_trip(query: QueryView)
    requires
        query_fits(query),
    ensures
        parse_query(query_bytes(query)) == Some(query),
{
    has_at_self(query_bytes(query));
    parse_query_of_query_bytes(query_bytes(query), 0, query);
}

/// Decoding inverts encoding on reply envelopes: the bytes that encode an
/// envelope, a response or a reported failure, decode, and to that envelope.
pub proof fn envelope_round_trip(envelope: EnvelopeView)
    requires
        envelope_fits(envelope),
    ensures
        parse_envelope(envelope_bytes(envelope)) == Some(envelope),
{
    has_at_self(envelope_bytes(envelope));
    parse_envelope_of_envelope_bytes(envelope_bytes(envelope), 0, envelope);
}

/// Two requests with the same encoding are the same request.
pub proof fn query_bytes_injective(a: QueryView, b: QueryView)
    requires
        query_fits(a),
        query_fits(b),
        query_bytes(a) == query_bytes(b),
    ensures
        a == b,
{
    query_round_trip(a);
    query_round_trip(b);
}

/// Two envelopes with the same encoding are the same envelope.
pub proof fn envelope_bytes_injective(a: EnvelopeView, b: EnvelopeView)
    requires
        envelope_fits(a),
        envelope_fits(b),
        envelope_bytes(a) == envelope_bytes(b),
    ensures
        a == b,
{
    envelope_round_trip(a);
    envelope_round_trip(b);
}

/// A key that is read behind a mark stands there, behind the mark, as the
/// two would be written.
proof fn text_behind_mark_of_parse(bytes: Seq<u8>, pos: int, open: Mark)
    requires
        has_at(bytes, pos, mark(open)),
        parse_text(bytes, pos + mark(open).len()) is Some,
    ensures
        text_fits(parse_text(bytes, pos + mark(open).len()).unwrap().0),
        has_at(
            bytes,
            pos,
            mark(open) + text_bytes(parse_text(bytes, pos + mark(open).len()).unwrap().0),
        ),
        parse_text(bytes, pos + mark(open).len()).unwrap().1 == pos + (mark(open) + text_bytes(
            parse_text(bytes, pos + mark(open).len()).unwrap().0,
        )).len(),
{
    let start = pos + mark(open).len();
    text_bytes_of_parse_text(bytes, start);
    has_at_join(bytes, pos, mark(open), text_bytes(parse_text(bytes, start).unwrap().0));
}

/// A text operation that is read stands there as it would be written.
pub proof fn text_method_bytes_of_parse(bytes: Seq<u8>, pos: int)
    requires
        parse_text_method(bytes, pos) is Some,
    ensures
        text_method_fits(parse_text_method(bytes, pos).unwrap().0),
        has_at(bytes, pos, text_method_bytes(parse_text_method(bytes, pos).unwrap().0)),
        parse_text_method(bytes, pos).unwrap().1 == pos + text_method_bytes(
            parse_text_method(bytes, pos).unwrap().0,
        ).len(),
{
    if has_at(bytes, pos, mark(Mark::DeleteText)) {
        text_behind_mark_of_parse(bytes, pos, Mark::DeleteText);
    } else if has_at(bytes, pos, mark(Mark::ReadText)) {
        text_behind_mark_of_parse(bytes, pos, Mark::ReadText);
    } else {
        let open = mark(Mark::WriteText);
        text_behind_mark_of_parse(bytes, pos, Mark::WriteText);
        let (key, field) = parse_text(bytes, pos + open.len()).unwrap();
        text_behind_mark_of_parse(bytes, field, Mark::ValueField);
        let value = parse_text(bytes, field + mark(Mark::ValueField).len()).unwrap().0;
        has_at_join(
            bytes,
            pos,
            open + text_bytes(key),
            mark(Mark::ValueField) + text_bytes(value),
        );
        assert(text_method_bytes(TextMethodView::Write { key, value }) =~= (open + text_bytes(key))
            + (mark(Mark::ValueField) + text_bytes(value)));
    }
}

/// A counter operation that is read stands there under its name.
pub proof fn method_bytes_of_parse(bytes: Seq<u8>, pos: int)
    requires
        parse_method(bytes, pos) is Some,
    ensures
        has_at(bytes, pos, method_bytes(parse_method(bytes, pos).unwrap().0)),
        parse_method(bytes, pos).unwrap().1 == pos + method_bytes(
            parse_method(bytes, pos).unwrap().0,
        ).len(),
{
}

/// A request that is read stands there as it would be written.
pub proof fn query_bytes_of_parse(bytes: Seq<u8>, pos: int)
    requires
        parse_query_at(bytes, pos) is Some,
    ensures
        query_fits(parse_query_at(bytes, pos).unwrap().0),
        has_at(bytes, pos, query_bytes(parse_query_at(bytes, pos).unwrap().0)),
        parse_query_at(bytes, pos).unwrap().1 == pos + query_bytes(
            parse_query_at(bytes, pos).unwrap().0,
        ).len(),
{
    if has_at(bytes, pos, mark(Mark::CounterQuery)) {
        let open = mark(Mark::CounterQuery);
        text_behind_mark_of_parse(bytes, pos, Mark::CounterQuery);
        let (key, field) = parse_text(bytes, pos + open.len()).unwrap();
        let start = field + mark(Mark::MethodField).len();
        method_bytes_of_parse(bytes, start);
        let method = parse_method(bytes, start).unwrap().0;
        has_at_join(bytes, field, mark(Mark::MethodField), method_bytes(method));
        has_at_join(
            bytes,
            pos,
            open + text_bytes(key),
            mark(Mark::MethodField) + method_bytes(method),
        );
        assert(query_bytes(QueryView::Counter { key, method }) =~= (open + text_bytes(key)) + (mark(
            Mark::MethodField,
        ) + method_bytes(method)));
    } else {
        let start = pos + mark(Mark::TextQuery).len();
        text_method_bytes_of_parse(bytes, start);
        has_at_join(
            bytes,
            pos,
            mark(Mark::TextQuery),
            text_method_bytes(parse_text_method(bytes, start).unwrap().0),
        );
    }
}

/// A response that is read stands there as it would be written.
pub proof fn response_bytes_of_parse(bytes: Seq<u8>, pos: int)
    requires
        parse_response(bytes, pos) is Some,
    ensures
        envelope_fits(Ok(parse_response(bytes, pos).unwrap().0)),
        has_at(bytes, pos, response_bytes(parse_response(bytes, pos).unwrap().0)),
        parse_response(bytes, pos).unwrap().1 == pos + response_bytes(
            parse_response(bytes, pos).unwrap().0,
        ).len(),
{
    if has_at(bytes, pos, mark(Mark::CounterResponse)) {
        let start = pos + mark(Mark::CounterResponse).len();
        head_bytes_of_parse_head(bytes, start, MAJOR_UNSIGNED);
        has_at_join(
            bytes,
            pos,
            mark(Mark::CounterResponse),
            head_bytes(MAJOR_UNSIGNED, parse_unsigned(bytes, start).unwrap().0),
        );
    } else {
        text_behind_mark_of_parse(bytes, pos, Mark::TextResponse);
    }
}

/// An envelope that is read stands there as it would be written.
pub proof fn envelope_bytes_of_parse(bytes: Seq<u8>, pos: int)
    requires
        parse_envelope_at(bytes, pos) is Some,
    ensures
        envelope_fits(parse_envelope_at(bytes, pos).unwrap().0),
        has_at(bytes, pos, envelope_bytes(parse_envelope_at(bytes, pos).unwrap().0)),
        parse_envelope_at(bytes, pos).unwrap().1 == pos + envelope_bytes(
            parse_envelope_at(bytes, pos).unwrap().0,
        ).len(),
{
    if has_at(bytes, pos, mark(Mark::Success)) {
        let start = pos + mark(Mark::Success).len();
        response_bytes_of_parse(bytes, start);
        has_at_join(
            bytes,
            pos,
            mark(Mark::Success),
            response_bytes(parse_response(bytes, start).unwrap().0),
        );
    } else {
        text_behind_mark_of_parse(bytes, pos, Mark::Failure);
    }
}

/// Encoding inverts decoding on requests: bytes that decode are the
/// encoding of the request they decode to, and of no other.
pub proof fn query_decodes_from_its_encoding_only(bytes: Seq<u8>, query: QueryView)
    requires
        parse_query(bytes) == Some(query),
    ensures
        query_fits(query),
        bytes == query_bytes(query),
{
    query_bytes_of_parse(bytes, 0);
    has_at_whole(bytes, query_bytes(query));
}

/// Encoding inverts decoding on reply envelopes: bytes that decode are the
/// encoding of the envelope they decode to, and of no other.
pub proof fn envelope_decodes_from_its_encoding_only(bytes: Seq<u8>, envelope: EnvelopeView)
    requires
        parse_envelope(bytes) == Some(envelope),
    ensures
        envelope_fits(envelope),
        bytes == envelope_bytes(envelope),
{
    envelope_bytes_of_parse(bytes, 0);
    has_at_whole(bytes, envelope_bytes(envelope));
}

/// The text item of an ASCII name: its length, then one byte for each
/// character.
proof fn ascii_text_bytes(name: Seq<char>)
    requires
        is_ascii_chars(name),
        name.len() < 24,
    ensures
        text_bytes(name) =~= seq![(0x60 + name.len()) as u8] + Seq::new(
            name.len(),
            |i: int| name[i] as u8,
        ),
{
    is_ascii_chars_encode_utf8(name);
}

/// The marks that name a counter operation are the names as text items.
pub proof fn method_marks_spell_names()
    ensures
        mark(Mark::Create) == text_bytes("Create"@),
        mark(Mark::Delete) == text_bytes("Delete"@),
        mark(Mark::Get) == text_bytes("Get"@),
        mark(Mark::Increment) == text_bytes("Increment"@),
{
    reveal_strlit("Create");
    reveal_strlit("Delete");
    reveal_strlit("Get");
    reveal_strlit("Increment");
    ascii_text_bytes("Create"@);
    ascii_text_bytes("Delete"@);
    ascii_text_bytes("Get"@);
    ascii_text_bytes("Increment"@);
    assert(mark(Mark::Create) =~= text_bytes("Create"@));
    assert(mark(Mark::Delete) =~= text_bytes("Delete"@));
    assert(mark(Mark::Get) =~= text_bytes("Get"@));
    assert(mark(Mark::Increment) =~= text_bytes("Increment"@));
}

/// The marks that name a field are the names as text items.
pub proof fn field_marks_spell_names()
    ensures
        mark(Mark::MethodField) == text_bytes("method"@),
        mark(Mark::ValueField) == text_bytes("value"@),
{
    reveal_strlit("method");
    reveal_strlit("value");
    ascii_text_bytes("method"@);
    ascii_text_bytes("value"@);
    assert(mark(Mark::MethodField) =~= text_bytes("method"@));
    assert(mark(Mark::ValueField) =~= text_bytes("value"@));
}

/// The marks that open a response or an envelope are the head of a map of
/// one entry and the variant's name as a text item.
pub proof fn reply_marks_spell_names()
    ensures
        mark(Mark::CounterResponse) == head_bytes(MAJOR_MAP, 1) + text_bytes("Counter"@),
        mark(Mark::TextResponse) == head_bytes(MAJOR_MAP, 1) + text_bytes("Text"@),
        mark(Mark::Success) == head_bytes(MAJOR_MAP, 1) + text_bytes("Ok"@),
        mark(Mark::Failure) == head_bytes(MAJOR_MAP, 1) + text_bytes("Err"@),
{
    reveal_strlit("Counter");
    reveal_strlit("Text");
    reveal_strlit("Ok");
    reveal_strlit("Err");
    ascii_text_bytes("Counter"@);
    ascii_text_bytes("Text"@);
    ascii_text_bytes("Ok"@);
    ascii_text_bytes("Err"@);
    assert(mark(Mark::CounterResponse) =~= head_bytes(MAJOR_MAP, 1) + text_bytes("Counter"@));
    assert(mark(Mark::TextResponse) =~= head_bytes(MAJOR_MAP, 1) + text_bytes("Text"@));
    assert(mark(Mark::Success) =~= head_bytes(MAJOR_MAP, 1) + text_bytes("Ok"@));
    assert(mark(Mark::Failure) =~= head_bytes(MAJOR_MAP, 1) + text_bytes("Err"@));
}

/// The marks that open a request are the heads of its maps and the names of
/// its variants and of its first field as text items: a request is a map of
/// one entry from the variant's name to the variant's fields, and these a
/// map from field name to value.
pub proof fn query_marks_spell_names()
    ensures
        mark(Mark::CounterQuery) == head_bytes(MAJOR_MAP, 1) + text_bytes("Counter"@) + head_bytes(
            MAJOR_MAP,
            2,
        ) + text_bytes("key"@),
        mark(Mark::TextQuery) == head_bytes(MAJOR_MAP, 1) + text_bytes("Text"@),
        mark(Mark::DeleteText) == head_bytes(MAJOR_MAP, 1) + text_bytes("Delete"@) + head_bytes(
            MAJOR_MAP,
            1,
        ) + text_bytes("key"@),
        mark(Mark::ReadText) == head_bytes(MAJOR_MAP, 1) + text_bytes("Read"@) + head_bytes(
            MAJOR_MAP,
            1,
        ) + text_bytes("key"@),
        mark(Mark::WriteText) == head_bytes(MAJOR_MAP, 1) + text_bytes("Write"@) + head_bytes(
            MAJOR_MAP,
            2,
        ) + text_bytes("key"@),
{
    reveal_strlit("Counter");
    reveal_strlit("Text");
    reveal_strlit("Delete");
    reveal_strlit("Read");
    reveal_strlit("Write");
    reveal_strlit("key");
    ascii_text_bytes("Counter"@);
    ascii_text_bytes("Text"@);
    ascii_text_bytes("Delete"@);
    ascii_text_bytes("Read"@);
    ascii_text_bytes("Write"@);
    ascii_text_bytes("key"@);
    let one = head_bytes(MAJOR_MAP, 1);
    let two = head_bytes(MAJOR_MAP, 2);
    let key = text_bytes("key"@);
    assert(mark(Mark::CounterQuery) =~= one + text_bytes("Counter"@) + two + key);
    assert(mark(Mark::TextQuery) =~= one + text_bytes("Text"@));
    assert(mark(Mark::DeleteText) =~= one + text_bytes("Delete"@) + one + key);
    assert(mark(Mark::ReadText) =~= one + text_bytes("Read"@) + one + key);
    assert(mark(Mark::WriteText) =~= one + text_bytes("Write"@) + two + key);
}

} // verus!
