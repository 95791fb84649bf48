//! The incremental parsing contract: what a parser is given, what it hands back, and
//! the lexical primitives that every rule of the grammar is built from.
//!
//! A parser takes a byte slice and returns the value it read together with the bytes
//! it left, or [`Error::Incomplete`] when the slice is a prefix of something that may
//! still parse, or a terminal error when it can never parse.  A parser never consumes
//! on failure: after `Incomplete` the caller gets more bytes and parses again from
//! the same start.

use crate::token::{lemma_span_unique, scan, span, ByteClass, COLON, CR, LF, SP};
use vstd::prelude::*;

verus! {

/// What a parser reads: the bytes that have arrived so far.
pub type Input<'a> = &'a [u8];

/// What a parser hands back: the bytes it left and the value it read, or the failure.
pub type ParseResult<'a, T> = Result<(Input<'a>, T), Error>;

/// The rule of the grammar in which a failure was met.
#[derive(Debug, Clone, Copy, PartialEq, Eq, Structural)]
pub enum Context {
    Method,
    Header,
    Headers,
    Body,
    StatusCode,
    Status,
    Request,
    Response,
}

impl Context {
    /// The label under which the rule appears in diagnostics.
    pub open spec fn spec_label(self) -> Seq<char> {
        match self {
            Context::Method => "Method"@,
            Context::Header => "Header"@,
            Context::Headers => "Headers"@,
            Context::Body => "Body"@,
            Context::StatusCode => "Status Code"@,
            Context::Status => "Status"@,
            Context::Request => "Request"@,
            Context::Response => "Response"@,
        }
    }

    /// The label of the rule.
    pub fn label(&self) -> (s: &'static str)
        ensures
            s@ == self.spec_label(),
    {
        match self {
            Context::Method => "Method",
            Context::Header => "Header",
            Context::Headers => "Headers",
            Context::Body => "Body",
            Context::StatusCode => "Status Code",
            Context::Status => "Status",
            Context::Request => "Request",
            Context::Response => "Response",
        }
    }
}

/// Why a message is malformed.
#[derive(Debug, Clone, Copy, PartialEq, Eq, Structural)]
pub enum Cause {
    /// A byte that the grammar does not allow where it stands.
    UnexpectedByte,
    /// The method token is none of the known methods.
    UnknownMethod,
    /// The status digits are none of the known codes.
    UnknownStatusCode,
    /// The declared body length is not a non-negative integer that fits the machine.
    InvalidContentLength,
    /// The body is not data of the declared content encoding.
    CorruptBody,
}

/// A feature that a message asks for and this library does not have.
#[derive(Debug, Clone, Copy, PartialEq, Eq, Structural)]
pub enum Feature {
    /// A content encoding other than gzip, deflate and zlib.
    UnknownEncoding,
}

/// The four kinds of failure.
#[derive(Debug, Clone, Copy, PartialEq, Eq, Structural)]
pub enum ErrorKind {
    /// More bytes are needed; the only kind that is not terminal.
    Incomplete,
    /// The bytes break the structure of a message.
    Malformed,
    /// Bytes that are to be text are not valid UTF-8.
    EncodingError,
    /// The message uses a method, status code or encoding that is not known.
    UnsupportedFeature,
}

/// A failure to parse or decode.  The trail of a failure lists the rules in which it
/// was met, the innermost first.
#[derive(Debug, PartialEq, Eq)]
pub enum Error {
    Incomplete,
    Malformed(Cause, Vec<Context>),
    EncodingError(Vec<Context>),
    UnsupportedFeature(Feature),
}

/// The mathematical value of an [`Error`].
pub enum Failure {
    Incomplete,
    Malformed(Cause, Seq<Context>),
    EncodingError(Seq<Context>),
    UnsupportedFeature(Feature),
}

impl Failure {
    /// The same failure, seen from the enclosing rule `c`.  Only terminal failures of
    /// the input's structure or text carry a trail.
    pub open spec fn within(self, c: Context) -> Failure {
        match self {
            Failure::Malformed(cause, trail) => Failure::Malformed(cause, trail.push(c)),
            Failure::EncodingError(trail) => Failure::EncodingError(trail.push(c)),
            other => other,
        }
    }

    /// The kind a failure counts as.  An unknown method or status code is reported
    /// with the rule that met it, and counts as an unsupported feature.
    pub open spec fn kind(self) -> ErrorKind {
        match self {
            Failure::Incomplete => ErrorKind::Incomplete,
            Failure::Malformed(Cause::UnknownMethod, _) => ErrorKind::UnsupportedFeature,
            Failure::Malformed(Cause::UnknownStatusCode, _) => ErrorKind::UnsupportedFeature,
            Failure::Malformed(_, _) => ErrorKind::Malformed,
            Failure::EncodingError(_) => ErrorKind::EncodingError,
            Failure::UnsupportedFeature(_) => ErrorKind::UnsupportedFeature,
        }
    }
}

impl View for Error {
    type V = Failure;

    open spec fn view(&self) -> Failure {
        match self {
            Error::Incomplete => Failure::Incomplete,
            Error::Malformed(cause, trail) => Failure::Malformed(*cause, trail@),
            Error::EncodingError(trail) => Failure::EncodingError(trail@),
            Error::UnsupportedFeature(feature) => Failure::UnsupportedFeature(*feature),
        }
    }
}

impl Error {
    /// A malformed-input failure with an empty trail.
    pub fn malformed(cause: Cause) -> (e: Error)
        ensures
            e@ == Failure::Malformed(cause, Seq::empty()),
    {
        Error::Malformed(cause, Vec::new())
    }

    /// An invalid-text failure with an empty trail.
    pub fn encoding() -> (e: Error)
        ensures
            e@ == Failure::EncodingError(Seq::empty()),
    {
        Error::EncodingError(Vec::new())
    }

    /// Records that the failure was met inside the rule `c`.
    pub fn within(self, c: Context) -> (e: Error)
        ensures
            e@ == self@.within(c),
    {
        match self {
            Error::Malformed(cause, trail) => {
                let mut trail = trail;
                trail.push(c);
                Error::Malformed(cause, trail)
            },
            Error::EncodingError(trail) => {
                let mut trail = trail;
                trail.push(c);
                Error::EncodingError(trail)
            },
            other => other,
        }
    }

    /// The kind that the failure counts as.
    pub fn kind(&self) -> (k: ErrorKind)
        ensures
            k == self@.kind(),
    {
        match self {
            Error::Incomplete => ErrorKind::Incomplete,
            Error::Malformed(Cause::UnknownMethod, _) => ErrorKind::UnsupportedFeature,
            Error::Malformed(Cause::UnknownStatusCode, _) => ErrorKind::UnsupportedFeature,
            Error::Malformed(_, _) => ErrorKind::Malformed,
            Error::EncodingError(_) => ErrorKind::EncodingError,
            Error::UnsupportedFeature(_) => ErrorKind::UnsupportedFeature,
        }
    }

    /// Whether supplying more bytes and parsing again can still succeed.
    pub fn is_recoverable(&self) -> (b: bool)
        ensures
            b == (self@ == Failure::Incomplete),
    {
        match self {
            Error::Incomplete => true,
            _ => false,
        }
    }
}

/// What a rule of the grammar makes of a byte sequence: the value it reads and the
/// number of bytes it consumes, or the failure.
pub type Parsed<T> = Result<(T, int), Failure>;

/// The result `r` of running a parser on `i` is what the grammar says: the value's
/// view and the consumed count agree, the bytes handed back are the rest of `i`, and
/// a failure is the same failure.
pub open spec fn agrees<T: View>(r: ParseResult<T>, i: Seq<u8>, expected: Parsed<T::V>) -> bool {
    match r {
        Ok((rest, value)) => {
            &&& expected is Ok
            &&& value@ == expected->Ok_0.0
            &&& 0 <= expected->Ok_0.1 <= i.len()
            &&& rest@ == i.skip(expected->Ok_0.1)
        },
        Err(e) => expected == Err::<(T::V, int), Failure>(e@),
    }
}

/// A rule's result with failures seen from the enclosing rule `c`.
pub open spec fn in_context<T>(r: Parsed<T>, c: Context) -> Parsed<T> {
    match r {
        Ok(v) => Ok(v),
        Err(f) => Err(f.within(c)),
    }
}

/// The run of `class` at the head of `s`, which may be empty.  As long as the run
/// reaches the end of `s`, more bytes could lengthen it.
pub open spec fn spec_take_while(s: Seq<u8>, class: ByteClass) -> Parsed<Seq<u8>> {
    let n = span(s, class);
    if n == s.len() {
        Err(Failure::Incomplete)
    } else {
        Ok((s.take(n), n))
    }
}

/// The run of `class` at the head of `s`, which must not be empty.
pub open spec fn spec_take_while1(s: Seq<u8>, class: ByteClass) -> Parsed<Seq<u8>> {
    let n = span(s, class);
    if n == s.len() {
        Err(Failure::Incomplete)
    } else if n == 0 {
        Err(Failure::Malformed(Cause::UnexpectedByte, Seq::empty()))
    } else {
        Ok((s.take(n), n))
    }
}

/// The literal `lit` at the head of `s`.  A head that differs from `lit` where both
/// have bytes is malformed; a head that is a proper prefix of `lit` is incomplete.
pub open spec fn spec_tag(s: Seq<u8>, lit: Seq<u8>) -> Parsed<()> {
    let m = if s.len() < lit.len() {
        s.len() as int
    } else {
        lit.len() as int
    };
    if s.take(m) != lit.take(m) {
        Err(Failure::Malformed(Cause::UnexpectedByte, Seq::empty()))
    } else if s.len() < lit.len() {
        Err(Failure::Incomplete)
    } else {
        Ok(((), lit.len() as int))
    }
}

/// The line terminator, a carriage return and a line feed.
pub open spec fn crlf_bytes() -> Seq<u8> {
    seq![CR, LF]
}

/// The separator of a header's key and value, a colon and a space.
pub open spec fn colon_space_bytes() -> Seq<u8> {
    seq![COLON, SP]
}

/// The line terminator at the head of `s`.
pub open spec fn spec_crlf(s: Seq<u8>) -> Parsed<()> {
    spec_tag(s, crlf_bytes())
}

/// A run of `class` that is followed by a byte outside the class is read back whole,
/// whatever follows.
pub proof fn lemma_take_while_reads_run(run: Seq<u8>, tail: Seq<u8>, class: ByteClass)
    requires
        forall|j: int| 0 <= j < run.len() ==> class.has(#[trigger] run[j]),
        tail.len() > 0,
        !class.has(tail[0]),
    ensures
        spec_take_while(run + tail, class) == Ok::<(Seq<u8>, int), Failure>(
            (run, run.len() as int),
        ),
        run.len() > 0 ==> spec_take_while1(run + tail, class) == Ok::<(Seq<u8>, int), Failure>(
            (run, run.len() as int),
        ),
        (run + tail).skip(run.len() as int) == tail,
{
    let s = run + tail;
    let n = run.len() as int;
    assert forall|j: int| 0 <= j < n implies class.has(#[trigger] s[j]) by {
        assert(s[j] == run[j]);
    }
    assert(s[n] == tail[0]);
    lemma_span_unique(s, class, n);
    assert(s.take(n) =~= run);
}

/// A literal is read back, whatever follows.
pub proof fn lemma_tag_reads_literal(lit: Seq<u8>, tail: Seq<u8>)
    ensures
        spec_tag(lit + tail, lit) == Ok::<((), int), Failure>(((), lit.len() as int)),
        (lit + tail).skip(lit.len() as int) == tail,
{
    let s = lit + tail;
    assert(s.take(lit.len() as int) =~= lit.take(lit.len() as int));
}

/// Splits `i` after the run of `class` at its head.
pub fn take_while<'a>(i: Input<'a>, class: ByteClass) -> (r: ParseResult<'a, Input<'a>>)
    ensures
        agrees(r, i@, spec_take_while(i@, class)),
{
    let n = scan(i, class);
    if n == i.len() {
        Err(Error::Incomplete)
    } else {
        let token = vstd::slice::slice_subrange(i, 0, n);
        let rest = vstd::slice::slice_subrange(i, n, i.len());
        Ok((rest, token))
    }
}

/// Splits `i` after the run of `class` at its head, which must not be empty.
pub fn take_while1<'a>(i: Input<'a>, class: ByteClass) -> (r: ParseResult<'a, Input<'a>>)
    ensures
        agrees(r, i@, spec_take_while1(i@, class)),
{
    let n = scan(i, class);
    if n == i.len() {
        Err(Error::Incomplete)
    } else if n == 0 {
        Err(Error::malformed(Cause::UnexpectedByte))
    } else {
        let token = vstd::slice::slice_subrange(i, 0, n);
        let rest = vstd::slice::slice_subrange(i, n, i.len());
        Ok((rest, token))
    }
}

/// Splits `i` before the first byte equal to `stop`.
pub fn take_till<'a>(i: Input<'a>, stop: u8) -> (r: ParseResult<'a, Input<'a>>)
    ensures
        agrees(r, i@, spec_take_while(i@, ByteClass::Until(stop))),
{
    take_while(i, ByteClass::Until(stop))
}

/// Takes the literal `lit` off the head of `i`.
pub fn tag<'a>(i: Input<'a>, lit: &[u8]) -> (r: ParseResult<'a, ()>)
    ensures
        agrees(r, i@, spec_tag(i@, lit@)),
{
    let m = if i.len() < lit.len() {
        i.len()
    } else {
        lit.len()
    };
    let mut k: usize = 0;
    while k < m
        invariant
            k <= m,
            m <= i.len(),
            m <= lit.len(),
            forall|j: int| 0 <= j < k ==> i@[j] == lit@[j],
        decreases m - k,
    {
        if i[k] != lit[k] {
            proof {
                assert(i@.take(m as int)[k as int] != lit@.take(m as int)[k as int]);
            }
            return Err(Error::malformed(Cause::UnexpectedByte));
        }
        k = k + 1;
    }
    proof {
        assert(i@.take(m as int) =~= lit@.take(m as int));
    }
    if i.len() < lit.len() {
        Err(Error::Incomplete)
    } else {
        let rest = vstd::slice::slice_subrange(i, m, i.len());
        Ok((rest, ()))
    }
}

/// Takes a line terminator off the head of `i`.
pub fn crlf<'a>(i: Input<'a>) -> (r: ParseResult<'a, ()>)
    ensures
        agrees(r, i@, spec_crlf(i@)),
{
    let lit: [u8; 2] = [CR, LF];
    tag(i, lit.as_slice())
}

} // verus!
