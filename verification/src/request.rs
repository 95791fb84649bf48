//! Requests: the request line `METHOD SP PATH SP VERSION CRLF`, the assembly of a
//! request from start line, headers and body, the builder, and the wire form.

use crate::body::{view_of, Body, Content};
use crate::headers::{block_bytes, lookup, upsert, CommonHeaders, Entry, Headers};
use crate::method::Method;
use crate::parse::{
    agrees, crlf, crlf_bytes, in_context, spec_crlf, spec_take_while, spec_take_while1,
    take_till, take_while1, Context, Error, Failure, Input, ParseResult, Parsed,
};
use crate::text::{append, serialize_crlf, serialize_space, spec_text, text};
use crate::token::{ByteClass, CR, SP};
use vstd::prelude::*;
use vstd::utf8::encode_utf8;

verus! {

/// The port of a plaintext connection.
pub const HTTP_PORT: u16 = 80;

/// The port of a connection over TLS.
pub const HTTPS_PORT: u16 = 443;

/// How a request travels.
#[derive(Debug, Clone, Copy, PartialEq, Eq, Structural)]
pub enum Protocol {
    /// Plaintext, the default.
    HTTP,
    /// HTTP over TLS.
    HTTPS,
}

impl Protocol {
    /// The port that the protocol uses where none is chosen.
    pub open spec fn spec_default_port(self) -> u16 {
        match self {
            Protocol::HTTP => HTTP_PORT,
            Protocol::HTTPS => HTTPS_PORT,
        }
    }

    #[verifier::when_used_as_spec(spec_default_port)]
    /// The port that the protocol uses where none is chosen.
    pub fn default_port(self) -> (p: u16)
        ensures
            p == self.spec_default_port(),
    {
        match self {
            Protocol::HTTP => HTTP_PORT,
            Protocol::HTTPS => HTTPS_PORT,
        }
    }
}

/// The request line as it stands on the wire: the method, one or more blanks, the
/// path up to the first space, one or more blanks, the version up to the first
/// carriage return, and the line terminator.  Path and version are returned as they
/// stand.
pub open spec fn spec_request_line(s: Seq<u8>) -> Parsed<(Method, Seq<u8>, Seq<u8>)> {
    match Method::spec_parse(s) {
        Err(f) => Err(f),
        Ok((method, n1)) => match spec_take_while1(s.skip(n1), ByteClass::Blank) {
            Err(f) => Err(f),
            Ok((_, n2)) => match spec_take_while(s.skip(n1).skip(n2), ByteClass::Until(SP)) {
                Err(f) => Err(f),
                Ok((path, n3)) => match spec_take_while1(
                    s.skip(n1).skip(n2).skip(n3),
                    ByteClass::Blank,
                ) {
                    Err(f) => Err(f),
                    Ok((_, n4)) => match spec_take_while(
                        s.skip(n1).skip(n2).skip(n3).skip(n4),
                        ByteClass::Until(CR),
                    ) {
                        Err(f) => Err(f),
                        Ok((version, n5)) => match spec_crlf(
                            s.skip(n1).skip(n2).skip(n3).skip(n4).skip(n5),
                        ) {
                            Err(f) => Err(f),
                            Ok((_, n6)) => Ok(
                                ((method, path, version), n1 + n2 + n3 + n4 + n5 + n6),
                            ),
                        },
                    },
                },
            },
        },
    }
}

/// Reads a request line off the head of `i`, leaving path and version as bytes.
pub fn request_line<'a>(i: Input<'a>) -> (r: ParseResult<'a, (Method, Input<'a>, Input<'a>)>)
    ensures
        agrees(r, i@, spec_request_line(i@)),
{
    let (i1, method) = Method::parse(i)?;
    let ghost n1 = i@.len() - i1@.len();
    let (i2, _) = take_while1(i1, ByteClass::Blank)?;
    let ghost n2 = i1@.len() - i2@.len();
    let (i3, path) = take_till(i2, SP)?;
    let ghost n3 = i2@.len() - i3@.len();
    let (i4, _) = take_while1(i3, ByteClass::Blank)?;
    let ghost n4 = i3@.len() - i4@.len();
    let (i5, version) = take_till(i4, CR)?;
    let ghost n5 = i4@.len() - i5@.len();
    let (i6, _) = crlf(i5)?;
    let ghost n6 = i5@.len() - i6@.len();
    assert(i6@ =~= i@.skip(n1 + n2 + n3 + n4 + n5 + n6));
    Ok((i6, (method, path, version)))
}

/// The start line of a request.
#[derive(Debug, PartialEq, Eq)]
pub struct RequestStatus<'a> {
    pub method: Method,
    pub path: &'a str,
    pub version: &'a str,
}

/// The mathematical value of a [`RequestStatus`].
pub struct RequestLine {
    pub method: Method,
    pub path: Seq<char>,
    pub version: Seq<char>,
}

impl<'a> View for RequestStatus<'a> {
    type V = RequestLine;

    open spec fn view(&self) -> RequestLine {
        RequestLine { method: self.method, path: self.path@, version: self.version@ }
    }
}

impl<'a> RequestStatus<'a> {
    /// A request line whose path and version are valid UTF-8.
    pub open spec fn spec_parse(s: Seq<u8>) -> Parsed<RequestLine> {
        match spec_request_line(s) {
            Err(f) => Err(f),
            Ok(((method, path, version), n)) => match spec_text(path) {
                Err(f) => Err(f),
                Ok(p) => match spec_text(version) {
                    Err(f) => Err(f),
                    Ok(v) => Ok((RequestLine { method: method, path: p, version: v }, n)),
                },
            },
        }
    }

    /// Reads a request line off the head of `i`.
    pub fn parse(i: Input<'a>) -> (r: ParseResult<'a, RequestStatus<'a>>)
        ensures
            agrees(r, i@, RequestStatus::spec_parse(i@)),
    {
        let (rest, (method, path, version)) = request_line(i)?;
        let path = text(path)?;
        let version = text(version)?;
        Ok((rest, RequestStatus { method, path, version }))
    }
}

/// A request.  The texts of a parsed request are views into the buffer it was read
/// from; those of a request that is being built belong to the caller.
#[derive(Debug)]
pub struct Request<'a> {
    pub method: Method,
    pub protocol: Protocol,
    /// The host to connect to, where one has been set.
    pub host: Option<&'a str>,
    pub path: &'a str,
    /// The port to connect to, where one has been set.
    pub port: Option<u16>,
    /// The protocol version, such as `HTTP/1.1`.
    pub version: &'a str,
    pub headers: Headers,
    /// The body; `None` is a request without one.
    pub body: Option<Body>,
}

/// The mathematical value of a [`Request`].
pub struct RequestModel {
    pub method: Method,
    pub protocol: Protocol,
    pub host: Option<Seq<char>>,
    pub path: Seq<char>,
    pub port: Option<u16>,
    pub version: Seq<char>,
    pub headers: Seq<Entry>,
    pub body: Option<Content>,
}

impl RequestModel {
    /// The wire form of a request: the request line with single spaces, every
    /// header as a line, a bare line terminator, and the bytes of the body as they
    /// are.
    pub open spec fn wire(self) -> Seq<u8> {
        self.method.token() + seq![SP] + encode_utf8(self.path) + seq![SP] + encode_utf8(
            self.version,
        ) + crlf_bytes() + block_bytes(self.headers) + crlf_bytes() + match self.body {
            Some(content) => content.bytes(),
            None => Seq::empty(),
        }
    }

    /// Where the request is to be sent: the host that was set, or else the one that
    /// the `HOST` header names; the port that was set, or else the protocol's own.
    /// A request without a host has no destination.
    pub open spec fn destination(self) -> Option<(Seq<char>, u16)> {
        let port = match self.port {
            Some(p) => p,
            None => self.protocol.spec_default_port(),
        };
        match self.host {
            Some(h) => Some((h, port)),
            None => match lookup(self.headers, CommonHeaders::Host.name()) {
                Some(h) => Some((h, port)),
                None => None,
            },
        }
    }
}

impl<'a> View for Request<'a> {
    type V = RequestModel;

    open spec fn view(&self) -> RequestModel {
        RequestModel {
            method: self.method,
            protocol: self.protocol,
            host: match self.host {
                Some(h) => Some(h@),
                None => None,
            },
            path: self.path@,
            port: self.port,
            version: self.version@,
            headers: self.headers.entries(),
            body: view_of(self.body),
        }
    }
}

impl<'a> Request<'a> {
    /// The request rule: a request line, a header block, and the body that the
    /// headers announce, if any.  Path and version must be valid UTF-8, which is
    /// checked once the whole message has been read.  A parsed request is plaintext
    /// and has neither host nor port set.
    pub open spec fn spec_parse(s: Seq<u8>) -> Parsed<RequestModel> {
        in_context(
            match spec_request_line(s) {
                Err(f) => Err(f),
                Ok(((method, path, version), n1)) => match Headers::spec_parse(s.skip(n1)) {
                    Err(f) => Err(f),
                    Ok((entries, n2)) => match Body::spec_frame(
                        s.skip(n1).skip(n2),
                        entries,
                        false,
                    ) {
                        Err(f) => Err(f),
                        Ok((body, n3)) => match spec_text(path) {
                            Err(f) => Err(f),
                            Ok(p) => match spec_text(version) {
                                Err(f) => Err(f),
                                Ok(v) => Ok(
                                    (
                                        RequestModel {
                                            method: method,
                                            protocol: Protocol::HTTP,
                                            host: None,
                                            path: p,
                                            port: None,
                                            version: v,
                                            headers: entries,
                                            body: body,
                                        },
                                        n1 + n2 + n3,
                                    ),
                                ),
                            },
                        },
                    },
                },
            },
            Context::Request,
        )
    }

    /// A `GET` of `/` over plaintext HTTP/1.1 on port 80, without host, headers or
    /// body.
    pub fn default() -> (r: Request<'a>)
        ensures
            r@ == (RequestModel {
                method: Method::GET,
                protocol: Protocol::HTTP,
                host: None,
                path: "/"@,
                port: Some(HTTP_PORT),
                version: "HTTP/1.1"@,
                headers: Seq::empty(),
                body: None,
            }),
    {
        Request {
            method: Method::GET,
            path: "/",
            protocol: Protocol::HTTP,
            host: None,
            port: Some(HTTP_PORT),
            version: "HTTP/1.1",
            headers: Headers::new(),
            body: None,
        }
    }

    /// Adds the credentials as a header: the user name is the key, the password
    /// the value.
    pub fn basic_auth(&mut self, username: &'a str, password: &'a str) -> (r: &mut Self)
        ensures
            r@ == (RequestModel {
                headers: upsert(old(self)@.headers, username@, password@),
                ..old(self)@
            }),
            *final(self) == *final(r),
    {
        self.headers.insert(username, password);
        self
    }

    /// Asks the server to keep the connection open: sets `CONNECTION` to
    /// `keep-alive`.
    pub fn keep_alive(&mut self) -> (r: &mut Self)
        ensures
            r@ == (RequestModel {
                headers: upsert(
                    old(self)@.headers,
                    CommonHeaders::Connection.name(),
                    "keep-alive"@,
                ),
                ..old(self)@
            }),
            *final(self) == *final(r),
    {
        self.headers.insert(CommonHeaders::Connection.as_str(), "keep-alive");
        self
    }

    /// Sets the host that the request goes to, and the `HOST` header with it.
    pub fn host(&mut self, host: &'a str) -> (r: &mut Self)
        ensures
            r@ == (RequestModel {
                host: Some(host@),
                headers: upsert(old(self)@.headers, CommonHeaders::Host.name(), host@),
                ..old(self)@
            }),
            *final(self) == *final(r),
    {
        self.host = Some(host);
        self.headers.insert(CommonHeaders::Host.as_str(), host);
        self
    }

    /// Selects HTTP over TLS, on port 443.
    pub fn https(&mut self) -> (r: &mut Self)
        ensures
            r@ == (RequestModel {
                port: Some(HTTPS_PORT),
                protocol: Protocol::HTTPS,
                ..old(self)@
            }),
            *final(self) == *final(r),
    {
        self.port = Some(HTTPS_PORT);
        self.protocol = Protocol::HTTPS;
        self
    }

    /// Sets the port that the request goes to.
    pub fn port(&mut self, port: u16) -> (r: &mut Self)
        ensures
            r@ == (RequestModel { port: Some(port), ..old(self)@ }),
            *final(self) == *final(r),
    {
        self.port = Some(port);
        self
    }

    /// Sets the method.
    pub fn method(&mut self, method: Method) -> (r: &mut Self)
        ensures
            r@ == (RequestModel { method: method, ..old(self)@ }),
            *final(self) == *final(r),
    {
        self.method = method;
        self
    }

    /// Sets the path.
    pub fn path(&mut self, path: &'a str) -> (r: &mut Self)
        ensures
            r@ == (RequestModel { path: path@, ..old(self)@ }),
            *final(self) == *final(r),
    {
        self.path = path;
        self
    }

    /// Puts the header `val` under `key`, as they are given.
    pub fn header(&mut self, key: &'a str, val: &'a str) -> (r: &mut Self)
        ensures
            r@ == (RequestModel {
                headers: upsert(old(self)@.headers, key@, val@),
                ..old(self)@
            }),
            *final(self) == *final(r),
    {
        self.headers.insert(key, val);
        self
    }

    /// Makes all of `i` the body.
    pub fn body(&mut self, i: Input<'a>) -> (r: &mut Self)
        ensures
            r@ == (RequestModel { body: Some(Content::Single(i@)), ..old(self)@ }),
            *final(self) == *final(r),
    {
        self.body = match Body::parse(i, None) {
            Ok((_, body)) => Some(body),
            Err(_) => None,
        };
        self
    }

    /// Reads a request off the head of `i`, and hands back the bytes after it.
    pub fn parse_prefix(i: Input<'a>) -> (r: ParseResult<'a, Request<'a>>)
        ensures
            agrees(r, i@, Request::spec_parse(i@)),
    {
        match Request::assemble(i) {
            Ok(v) => Ok(v),
            Err(e) => Err(e.within(Context::Request)),
        }
    }

    fn assemble(i: Input<'a>) -> (r: ParseResult<'a, Request<'a>>)
        ensures
            agrees(
                r,
                i@,
                match spec_request_line(i@) {
                    Err(f) => Err(f),
                    Ok(((method, path, version), n1)) => match Headers::spec_parse(i@.skip(n1)) {
                        Err(f) => Err(f),
                        Ok((entries, n2)) => match Body::spec_frame(
                            i@.skip(n1).skip(n2),
                            entries,
                            false,
                        ) {
                            Err(f) => Err(f),
                            Ok((body, n3)) => match spec_text(path) {
                                Err(f) => Err(f),
                                Ok(p) => match spec_text(version) {
                                    Err(f) => Err(f),
                                    Ok(v) => Ok(
                                        (
                                            RequestModel {
                                                method: method,
                                                protocol: Protocol::HTTP,
                                                host: None,
                                                path: p,
                                                port: None,
                                                version: v,
                                                headers: entries,
                                                body: body,
                                            },
                                            n1 + n2 + n3,
                                        ),
                                    ),
                                },
                            },
                        },
                    },
                },
            ),
    {
        let (i1, (method, path, version)) = request_line(i)?;
        let ghost n1 = i@.len() - i1@.len();
        let (i2, headers) = Headers::parse(i1)?;
        let ghost n2 = i1@.len() - i2@.len();
        let (i3, body) = Body::frame(i2, &headers, false)?;
        let ghost n3 = i2@.len() - i3@.len();
        assert(i3@ =~= i@.skip(n1 + n2 + n3));
        let path = text(path)?;
        let version = text(version)?;
        Ok(
            (
                i3,
                Request {
                    method,
                    path,
                    protocol: Protocol::HTTP,
                    host: None,
                    port: None,
                    version,
                    headers,
                    body,
                },
            ),
        )
    }

    /// Reads a request from `i`.  Bytes after the request are ignored.
    pub fn parse(i: Input<'a>) -> (r: Result<Request<'a>, Error>)
        ensures
            match r {
                Ok(request) => {
                    &&& Request::spec_parse(i@) is Ok
                    &&& request@ == Request::spec_parse(i@)->Ok_0.0
                },
                Err(e) => Request::spec_parse(i@) == Err::<(RequestModel, int), Failure>(e@),
            },
            r matches Ok(request) ==> (lookup(
                request@.headers,
                CommonHeaders::ContentLength.name(),
            ) is None ==> request@.body is None),
    {
        match Request::parse_prefix(i) {
            Ok((_, request)) => Ok(request),
            Err(e) => Err(e),
        }
    }

    /// The wire form of the request.
    pub fn serialize(&self) -> (out: Vec<u8>)
        ensures
            out@ == self@.wire(),
    {
        let mut out: Vec<u8> = Vec::new();
        self.method.serialize(&mut out);
        serialize_space(&mut out);
        append(&mut out, self.path.as_bytes());
        serialize_space(&mut out);
        append(&mut out, self.version.as_bytes());
        serialize_crlf(&mut out);
        self.headers.serialize(&mut out);
        serialize_crlf(&mut out);
        match &self.body {
            Some(body) => {
                append(&mut out, body.as_bytes());
            },
            None => {},
        }
        out
    }

    /// Where the request is to be sent.
    pub fn destination(&self) -> (r: Option<(&str, u16)>)
        ensures
            match r {
                Some((host, port)) => self@.destination() == Some((host@, port)),
                None => self@.destination() is None,
            },
    {
        let port = match self.port {
            Some(p) => p,
            None => self.protocol.default_port(),
        };
        match self.host {
            Some(h) => Some((h, port)),
            None => match self.headers.get(CommonHeaders::Host.as_str()) {
                Some(h) => Some((h.as_str(), port)),
                None => None,
            },
        }
    }
}

} // verus!
