//! The request methods: a closed set of exact, uppercase wire tokens.

use crate::parse::{
    agrees, in_context, spec_take_while, take_while, Cause, Context, Error, Failure, Input,
    ParseResult, Parsed,
};
use crate::text::{append, bytes_eq};
use crate::token::ByteClass;
use vstd::prelude::*;
use vstd::utf8::encode_utf8;

verus! {

/// The method of a request.
#[derive(Debug, Clone, Copy, PartialEq, Eq, Structural)]
pub enum Method {
    OPTIONS,
    GET,
    HEAD,
    POST,
    PUT,
    DELETE,
    TRACE,
    CONNECT,
}

impl View for Method {
    type V = Method;

    open spec fn view(&self) -> Method {
        *self
    }
}

impl Method {
    /// The method's name.
    pub open spec fn name(self) -> Seq<char> {
        match self {
            Method::OPTIONS => "OPTIONS"@,
            Method::GET => "GET"@,
            Method::HEAD => "HEAD"@,
            Method::POST => "POST"@,
            Method::PUT => "PUT"@,
            Method::DELETE => "DELETE"@,
            Method::TRACE => "TRACE"@,
            Method::CONNECT => "CONNECT"@,
        }
    }

    /// The bytes that stand for the method on the wire: its name in ASCII.
    pub open spec fn token(self) -> Seq<u8> {
        match self {
            Method::OPTIONS => seq![0x4Fu8, 0x50u8, 0x54u8, 0x49u8, 0x4Fu8, 0x4Eu8, 0x53u8],
            Method::GET => seq![0x47u8, 0x45u8, 0x54u8],
            Method::HEAD => seq![0x48u8, 0x45u8, 0x41u8, 0x44u8],
            Method::POST => seq![0x50u8, 0x4Fu8, 0x53u8, 0x54u8],
            Method::PUT => seq![0x50u8, 0x55u8, 0x54u8],
            Method::DELETE => seq![0x44u8, 0x45u8, 0x4Cu8, 0x45u8, 0x54u8, 0x45u8],
            Method::TRACE => seq![0x54u8, 0x52u8, 0x41u8, 0x43u8, 0x45u8],
            Method::CONNECT => seq![0x43u8, 0x4Fu8, 0x4Eu8, 0x4Eu8, 0x45u8, 0x43u8, 0x54u8],
        }
    }

    /// The method that a token names, if it is the exact token of one.
    pub open spec fn spec_from_token(t: Seq<u8>) -> Option<Method> {
        if t == Method::OPTIONS.token() {
            Some(Method::OPTIONS)
        } else if t == Method::GET.token() {
            Some(Method::GET)
        } else if t == Method::HEAD.token() {
            Some(Method::HEAD)
        } else if t == Method::POST.token() {
            Some(Method::POST)
        } else if t == Method::PUT.token() {
            Some(Method::PUT)
        } else if t == Method::DELETE.token() {
            Some(Method::DELETE)
        } else if t == Method::TRACE.token() {
            Some(Method::TRACE)
        } else if t == Method::CONNECT.token() {
            Some(Method::CONNECT)
        } else {
            None
        }
    }

    /// The method rule: the run of letters at the head of the input, which must be
    /// the exact token of a method.  The byte that ends the run is left in place.
    pub open spec fn spec_parse(s: Seq<u8>) -> Parsed<Method> {
        in_context(
            match spec_take_while(s, ByteClass::Alphabetic) {
                Ok((t, n)) => match Method::spec_from_token(t) {
                    Some(m) => Ok((m, n)),
                    None => Err(Failure::Malformed(Cause::UnknownMethod, Seq::empty())),
                },
                Err(f) => Err(f),
            },
            Context::Method,
        )
    }

    /// The token of a method is its name, written in ASCII.
    pub proof fn lemma_token_spells_name(self)
        ensures
            self.token() == encode_utf8(self.name()),
    {
        reveal_strlit("OPTIONS");
        reveal_strlit("GET");
        reveal_strlit("HEAD");
        reveal_strlit("POST");
        reveal_strlit("PUT");
        reveal_strlit("DELETE");
        reveal_strlit("TRACE");
        reveal_strlit("CONNECT");
        vstd::utf8::is_ascii_chars_encode_utf8(self.name());
    }

    /// The method's name as text.
    pub fn to_string(&self) -> (s: String)
        ensures
            s@ == self.name(),
    {
        match self {
            Method::OPTIONS => "OPTIONS".to_owned(),
            Method::GET => "GET".to_owned(),
            Method::HEAD => "HEAD".to_owned(),
            Method::POST => "POST".to_owned(),
            Method::PUT => "PUT".to_owned(),
            Method::DELETE => "DELETE".to_owned(),
            Method::TRACE => "TRACE".to_owned(),
            Method::CONNECT => "CONNECT".to_owned(),
        }
    }

    /// Looks a token up among the methods.  The match is exact: no case folding.
    pub fn from_token(t: &[u8]) -> (r: Option<Method>)
        ensures
            r == Method::spec_from_token(t@),
    {
        let options: [u8; 7] = [0x4F, 0x50, 0x54, 0x49, 0x4F, 0x4E, 0x53];
        let get: [u8; 3] = [0x47, 0x45, 0x54];
        let head: [u8; 4] = [0x48, 0x45, 0x41, 0x44];
        let post: [u8; 4] = [0x50, 0x4F, 0x53, 0x54];
        let put: [u8; 3] = [0x50, 0x55, 0x54];
        let delete: [u8; 6] = [0x44, 0x45, 0x4C, 0x45, 0x54, 0x45];
        let trace: [u8; 5] = [0x54, 0x52, 0x41, 0x43, 0x45];
        let connect: [u8; 7] = [0x43, 0x4F, 0x4E, 0x4E, 0x45, 0x43, 0x54];
        if bytes_eq(t, options.as_slice()) {
            Some(Method::OPTIONS)
        } else if bytes_eq(t, get.as_slice()) {
            Some(Method::GET)
        } else if bytes_eq(t, head.as_slice()) {
            Some(Method::HEAD)
        } else if bytes_eq(t, post.as_slice()) {
            Some(Method::POST)
        } else if bytes_eq(t, put.as_slice()) {
            Some(Method::PUT)
        } else if bytes_eq(t, delete.as_slice()) {
            Some(Method::DELETE)
        } else if bytes_eq(t, trace.as_slice()) {
            Some(Method::TRACE)
        } else if bytes_eq(t, connect.as_slice()) {
            Some(Method::CONNECT)
        } else {
            None
        }
    }

    /// Appends the method's token to `out`.
    pub fn serialize(&self, out: &mut Vec<u8>)
        ensures
            final(out)@ == old(out)@ + self.token(),
    {
        match self {
            Method::OPTIONS => {
                let t: [u8; 7] = [0x4F, 0x50, 0x54, 0x49, 0x4F, 0x4E, 0x53];
                append(out, t.as_slice());
            },
            Method::GET => {
                let t: [u8; 3] = [0x47, 0x45, 0x54];
                append(out, t.as_slice());
            },
            Method::HEAD => {
                let t: [u8; 4] = [0x48, 0x45, 0x41, 0x44];
                append(out, t.as_slice());
            },
            Method::POST => {
                let t: [u8; 4] = [0x50, 0x4F, 0x53, 0x54];
                append(out, t.as_slice());
            },
            Method::PUT => {
                let t: [u8; 3] = [0x50, 0x55, 0x54];
                append(out, t.as_slice());
            },
            Method::DELETE => {
                let t: [u8; 6] = [0x44, 0x45, 0x4C, 0x45, 0x54, 0x45];
                append(out, t.as_slice());
            },
            Method::TRACE => {
                let t: [u8; 5] = [0x54, 0x52, 0x41, 0x43, 0x45];
                append(out, t.as_slice());
            },
            Method::CONNECT => {
                let t: [u8; 7] = [0x43, 0x4F, 0x4E, 0x4E, 0x45, 0x43, 0x54];
                append(out, t.as_slice());
            },
        }
    }

    /// Reads a method off the head of `i`.
    pub fn parse<'a>(i: Input<'a>) -> (r: ParseResult<'a, Method>)
        ensures
            agrees(r, i@, Method::spec_parse(i@)),
    {
        match take_while(i, ByteClass::Alphabetic) {
            Ok((rest, token)) => match Method::from_token(token) {
                Some(m) => Ok((rest, m)),
                None => Err(Error::malformed(Cause::UnknownMethod).within(Context::Method)),
            },
            Err(e) => Err(e.within(Context::Method)),
        }
    }
}

} // verus!
