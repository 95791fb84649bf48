//! The status line of a response: `VERSION SP 3DIGIT SP REASON-PHRASE CRLF`, with
//! the status code taken from a closed table.

use crate::parse::{
    agrees, crlf, in_context, spec_crlf, spec_take_while, spec_take_while1, take_till,
    take_while1, Cause, Context, Error, Failure, Input, ParseResult, Parsed,
};
use crate::text::{bytes_eq, spec_text, text};
use crate::token::{ByteClass, CR, SP};
use vstd::prelude::*;

verus! {

/// The status codes that a response may carry.  A code outside this table cannot be
/// represented.
#[derive(Debug, Clone, Copy, PartialEq, Eq, Structural)]
pub enum StatusCode {
    Success,
    BadRequest,
    NotFound,
    MovedPermanently,
}

impl View for StatusCode {
    type V = StatusCode;

    open spec fn view(&self) -> StatusCode {
        *self
    }
}

impl StatusCode {
    /// The number of the status code.
    pub open spec fn spec_code(self) -> u16 {
        match self {
            StatusCode::Success => 200,
            StatusCode::BadRequest => 400,
            StatusCode::NotFound => 404,
            StatusCode::MovedPermanently => 301,
        }
    }

    /// The three digits that stand for the code on the wire.
    pub open spec fn digits(self) -> Seq<u8> {
        match self {
            StatusCode::Success => seq![0x32u8, 0x30u8, 0x30u8],
            StatusCode::BadRequest => seq![0x34u8, 0x30u8, 0x30u8],
            StatusCode::NotFound => seq![0x34u8, 0x30u8, 0x34u8],
            StatusCode::MovedPermanently => seq![0x33u8, 0x30u8, 0x31u8],
        }
    }

    /// The status code that digits name, if they are the digits of one.
    pub open spec fn spec_from_str(d: Seq<u8>) -> Option<StatusCode> {
        if d == StatusCode::Success.digits() {
            Some(StatusCode::Success)
        } else if d == StatusCode::BadRequest.digits() {
            Some(StatusCode::BadRequest)
        } else if d == StatusCode::NotFound.digits() {
            Some(StatusCode::NotFound)
        } else if d == StatusCode::MovedPermanently.digits() {
            Some(StatusCode::MovedPermanently)
        } else {
            None
        }
    }

    /// The status code rule: a run of digits and the blanks after it, both consumed;
    /// the digits must be those of a code in the table.
    pub open spec fn spec_parse(s: Seq<u8>) -> Parsed<StatusCode> {
        in_context(
            match spec_take_while1(s, ByteClass::Digit) {
                Err(f) => Err(f),
                Ok((d, n1)) => match spec_take_while1(s.skip(n1), ByteClass::Blank) {
                    Err(f) => Err(f),
                    Ok((_, n2)) => match StatusCode::spec_from_str(d) {
                        Some(code) => Ok((code, n1 + n2)),
                        None => Err(Failure::Malformed(Cause::UnknownStatusCode, Seq::empty())),
                    },
                },
            },
            Context::StatusCode,
        )
    }

    /// The number of the status code.
    #[verifier::when_used_as_spec(spec_code)]
    pub fn code(self) -> (n: u16)
        ensures
            n == self.spec_code(),
    {
        match self {
            StatusCode::Success => 200,
            StatusCode::BadRequest => 400,
            StatusCode::NotFound => 404,
            StatusCode::MovedPermanently => 301,
        }
    }

    /// Looks digits up in the table of status codes.
    pub fn from_str(i: Input) -> (r: Option<StatusCode>)
        ensures
            r == StatusCode::spec_from_str(i@),
    {
        let success: [u8; 3] = [0x32, 0x30, 0x30];
        let bad_request: [u8; 3] = [0x34, 0x30, 0x30];
        let not_found: [u8; 3] = [0x34, 0x30, 0x34];
        let moved: [u8; 3] = [0x33, 0x30, 0x31];
        if bytes_eq(i, success.as_slice()) {
            Some(StatusCode::Success)
        } else if bytes_eq(i, bad_request.as_slice()) {
            Some(StatusCode::BadRequest)
        } else if bytes_eq(i, not_found.as_slice()) {
            Some(StatusCode::NotFound)
        } else if bytes_eq(i, moved.as_slice()) {
            Some(StatusCode::MovedPermanently)
        } else {
            None
        }
    }

    fn parse_digits<'a>(i: Input<'a>) -> (r: ParseResult<'a, StatusCode>)
        ensures
            agrees(
                r,
                i@,
                match spec_take_while1(i@, ByteClass::Digit) {
                    Err(f) => Err(f),
                    Ok((d, n1)) => match spec_take_while1(i@.skip(n1), ByteClass::Blank) {
                        Err(f) => Err(f),
                        Ok((_, n2)) => match StatusCode::spec_from_str(d) {
                            Some(code) => Ok((code, n1 + n2)),
                            None => Err(
                                Failure::Malformed(Cause::UnknownStatusCode, Seq::empty()),
                            ),
                        },
                    },
                },
            ),
    {
        let (i1, digits) = take_while1(i, ByteClass::Digit)?;
        let ghost n1 = i@.len() - i1@.len();
        let (i2, _) = take_while1(i1, ByteClass::Blank)?;
        let ghost n2 = i1@.len() - i2@.len();
        assert(i2@ =~= i@.skip(n1 + n2));
        match StatusCode::from_str(digits) {
            Some(code) => Ok((i2, code)),
            None => Err(Error::malformed(Cause::UnknownStatusCode)),
        }
    }

    /// Reads a status code, and the blanks after it, off the head of `i`.
    pub fn parse<'a>(i: Input<'a>) -> (r: ParseResult<'a, StatusCode>)
        ensures
            agrees(r, i@, StatusCode::spec_parse(i@)),
    {
        match StatusCode::parse_digits(i) {
            Ok(v) => Ok(v),
            Err(e) => Err(e.within(Context::StatusCode)),
        }
    }
}

/// The start line of a response.
#[derive(Debug, PartialEq, Eq)]
pub struct ResponseStatus {
    pub protocol_version: String,
    pub status_code: StatusCode,
    pub description: String,
}

/// The mathematical value of a [`ResponseStatus`].
pub struct StatusLine {
    pub protocol_version: Seq<char>,
    pub status_code: StatusCode,
    pub description: Seq<char>,
}

impl View for ResponseStatus {
    type V = StatusLine;

    open spec fn view(&self) -> StatusLine {
        StatusLine {
            protocol_version: self.protocol_version@,
            status_code: self.status_code,
            description: self.description@,
        }
    }
}

impl ResponseStatus {
    /// The status line as it stands on the wire: the version up to the first space,
    /// one or more blanks, the status code with the blanks after it, the reason
    /// phrase up to the first carriage return, and the line terminator.
    pub open spec fn spec_line(s: Seq<u8>) -> Parsed<(Seq<u8>, StatusCode, Seq<u8>)> {
        match spec_take_while(s, ByteClass::Until(SP)) {
            Err(f) => Err(f),
            Ok((version, n1)) => match spec_take_while1(s.skip(n1), ByteClass::Blank) {
                Err(f) => Err(f),
                Ok((_, n2)) => match StatusCode::spec_parse(s.skip(n1).skip(n2)) {
                    Err(f) => Err(f),
                    Ok((code, n3)) => match spec_take_while(
                        s.skip(n1).skip(n2).skip(n3),
                        ByteClass::Until(CR),
                    ) {
                        Err(f) => Err(f),
                        Ok((reason, n4)) => match spec_crlf(
                            s.skip(n1).skip(n2).skip(n3).skip(n4),
                        ) {
                            Err(f) => Err(f),
                            Ok((_, n5)) => Ok(((version, code, reason), n1 + n2 + n3 + n4 + n5)),
                        },
                    },
                },
            },
        }
    }

    /// The status rule: a status line whose version and reason phrase are valid
    /// UTF-8.  The texts are kept as the wire has them.
    pub open spec fn spec_parse(s: Seq<u8>) -> Parsed<StatusLine> {
        in_context(
            match ResponseStatus::spec_line(s) {
                Err(f) => Err(f),
                Ok(((version, code, reason), n)) => match spec_text(version) {
                    Err(f) => Err(f),
                    Ok(v) => match spec_text(reason) {
                        Err(f) => Err(f),
                        Ok(d) => Ok(
                            (
                                StatusLine {
                                    protocol_version: v,
                                    status_code: code,
                                    description: d,
                                },
                                n,
                            ),
                        ),
                    },
                },
            },
            Context::Status,
        )
    }

    fn parse_line<'a>(i: Input<'a>) -> (r: ParseResult<'a, (Input<'a>, StatusCode, Input<'a>)>)
        ensures
            agrees(r, i@, ResponseStatus::spec_line(i@)),
    {
        let (i1, version) = take_till(i, SP)?;
        let ghost n1 = i@.len() - i1@.len();
        let (i2, _) = take_while1(i1, ByteClass::Blank)?;
        let ghost n2 = i1@.len() - i2@.len();
        let (i3, code) = StatusCode::parse(i2)?;
        let ghost n3 = i2@.len() - i3@.len();
        let (i4, reason) = take_till(i3, CR)?;
        let ghost n4 = i3@.len() - i4@.len();
        let (i5, _) = crlf(i4)?;
        let ghost n5 = i4@.len() - i5@.len();
        assert(i5@ =~= i@.skip(n1 + n2 + n3 + n4 + n5));
        Ok((i5, (version, code, reason)))
    }

    /// Reads a status line off the head of `i`.
    pub fn parse<'a>(i: Input<'a>) -> (r: ParseResult<'a, ResponseStatus>)
        ensures
            agrees(r, i@, ResponseStatus::spec_parse(i@)),
    {
        match ResponseStatus::parse_line(i) {
            Err(e) => Err(e.within(Context::Status)),
            Ok((rest, (version, code, reason))) => match text(version) {
                Err(e) => Err(e.within(Context::Status)),
                Ok(v) => match text(reason) {
                    Err(e) => Err(e.within(Context::Status)),
                    Ok(d) => Ok(
                        (
                            rest,
                            ResponseStatus {
                                protocol_version: v.to_owned(),
                                status_code: code,
                                description: d.to_owned(),
                            },
                        ),
                    ),
                },
            },
        }
    }
}

} // verus!
