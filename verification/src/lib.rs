//! A typed client for a small key-value and counter service.
//!
//! - `schema`: the request and response values and their mathematical views.
//! - `cbor`: the byte-level primitives of the wire format (item heads, text
//!   strings, fixed field labels).
//! - `codec`: the encoding of requests and reply envelopes, their decoders,
//!   and the proofs that decoding inverts encoding.
//! - `client`: one method per remote operation, each an
//!   encode / call / decode / narrow round trip over a caller-supplied
//!   transport.

pub mod cbor;
pub mod client;
pub mod codec;
pub mod schema;

pub use client::{Client, ClientError, Reply};
pub use codec::{decode_envelope, decode_query, encode_envelope, encode_query, DecodeError};
pub use schema::{Envelope, Method, Query, Response, TextMethod};
