//! An incremental parser and serializer for HTTP/1.x messages.
//!
//! A raw byte buffer is turned into a [`Request`] or a [`Response`] (start line,
//! headers, framed body), and a [`Request`] is turned back into wire bytes.  Parsing is
//! a pure function of the buffer: it either succeeds, asks for more bytes, or rejects
//! the input for good.  Every executable function carries a contract over a
//! mathematical model of the wire format.

pub mod body;
pub mod codec;
pub mod headers;
pub mod laws;
pub mod method;
pub mod parse;
pub mod request;
pub mod resume;
pub mod response;
pub mod status;
pub mod text;
pub mod token;

pub use crate::body::{content_length, parse_decimal, Body, MultiPartBody, SinglePartBody};
pub use crate::codec::Encoding;
pub use crate::headers::{CommonHeaders, Header, Headers};
pub use crate::method::Method;
pub use crate::parse::{Cause, Context, Error, ErrorKind, Feature, Input, ParseResult};
pub use crate::request::{request_line, Protocol, Request, RequestStatus};
pub use crate::response::Response;
pub use crate::status::{ResponseStatus, StatusCode};
pub use crate::text::{serialize_crlf, serialize_space};
pub use crate::token::{
    is_alphabetic, is_blank, is_colon, is_cr, is_digit, is_space, scan, ByteClass, CtrlChars,
};
