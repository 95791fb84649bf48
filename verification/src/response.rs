//! Responses: the assembly of a response from status line, headers and body.

use crate::body::{view_of, Body, Content};
use crate::headers::{Entry, Headers};
use crate::parse::{agrees, in_context, Context, Error, Failure, Input, ParseResult, Parsed};
use crate::status::{ResponseStatus, StatusLine};
use vstd::prelude::*;

verus! {

/// A response.  It owns its texts and its body.
#[derive(Debug)]
pub struct Response {
    pub status: ResponseStatus,
    pub headers: Headers,
    pub body: Option<Body>,
}

/// The mathematical value of a [`Response`].
pub struct ResponseModel {
    pub status: StatusLine,
    pub headers: Seq<Entry>,
    pub body: Option<Content>,
}

impl View for Response {
    type V = ResponseModel;

    open spec fn view(&self) -> ResponseModel {
        ResponseModel {
            status: self.status@,
            headers: self.headers.entries(),
            body: view_of(self.body),
        }
    }
}

impl Response {
    /// The response rule: a status line, a header block, and the body.  Where the
    /// headers announce a length the body is exactly that long; where they announce
    /// none, the body is every byte after the headers.
    pub open spec fn spec_parse(s: Seq<u8>) -> Parsed<ResponseModel> {
        in_context(
            match ResponseStatus::spec_parse(s) {
                Err(f) => Err(f),
                Ok((status, n1)) => match Headers::spec_parse(s.skip(n1)) {
                    Err(f) => Err(f),
                    Ok((entries, n2)) => match Body::spec_frame(
                        s.skip(n1).skip(n2),
                        entries,
                        true,
                    ) {
                        Err(f) => Err(f),
                        Ok((body, n3)) => Ok(
                            (
                                ResponseModel { status: status, headers: entries, body: body },
                                n1 + n2 + n3,
                            ),
                        ),
                    },
                },
            },
            Context::Response,
        )
    }

    fn assemble<'a>(i: Input<'a>) -> (r: ParseResult<'a, Response>)
        ensures
            agrees(
                r,
                i@,
                match ResponseStatus::spec_parse(i@) {
                    Err(f) => Err(f),
                    Ok((status, n1)) => match Headers::spec_parse(i@.skip(n1)) {
                        Err(f) => Err(f),
                        Ok((entries, n2)) => match Body::spec_frame(
                            i@.skip(n1).skip(n2),
                            entries,
                            true,
                        ) {
                            Err(f) => Err(f),
                            Ok((body, n3)) => Ok(
                                (
                                    ResponseModel { status: status, headers: entries, body: body },
                                    n1 + n2 + n3,
                                ),
                            ),
                        },
                    },
                },
            ),
    {
        let (i1, status) = ResponseStatus::parse(i)?;
        let ghost n1 = i@.len() - i1@.len();
        let (i2, headers) = Headers::parse(i1)?;
        let ghost n2 = i1@.len() - i2@.len();
        let (i3, body) = Body::frame(i2, &headers, true)?;
        let ghost n3 = i2@.len() - i3@.len();
        assert(i3@ =~= i@.skip(n1 + n2 + n3));
        Ok((i3, Response { status, headers, body }))
    }

    /// Reads a response off the head of `i`, and hands back the bytes after it.
    pub fn parse_prefix<'a>(i: Input<'a>) -> (r: ParseResult<'a, Response>)
        ensures
            agrees(r, i@, Response::spec_parse(i@)),
    {
        match Response::assemble(i) {
            Ok(v) => Ok(v),
            Err(e) => Err(e.within(Context::Response)),
        }
    }

    /// Reads a response from `i`.
    pub fn parse<'a>(i: Input<'a>) -> (r: Result<Response, Error>)
        ensures
            match r {
                Ok(response) => {
                    &&& Response::spec_parse(i@) is Ok
                    &&& response@ == Response::spec_parse(i@)->Ok_0.0
                },
                Err(e) => Response::spec_parse(i@) == Err::<(ResponseModel, int), Failure>(e@),
            },
    {
        match Response::parse_prefix(i) {
            Ok((_, response)) => Ok(response),
            Err(e) => Err(e),
        }
    }
}

} // verus!
