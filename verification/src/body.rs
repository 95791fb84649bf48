//! Bodies: how many bytes the headers announce, the slicing of exactly that many
//! bytes off the input, and the decoding of a compressed body.

use crate::codec::Encoding;
use crate::headers::{lookup, CommonHeaders, Entry, Headers};
use crate::parse::{agrees, Cause, Context, Error, Failure, Input, ParseResult, Parsed};
use crate::text::{spec_text, text};
use crate::token::{is_digit, spec_is_digit};
use vstd::prelude::*;
use vstd::utf8::encode_utf8;

verus! {

/// The plus sign that may stand before the digits of a length.
pub const PLUS: u8 = 0x2B;

/// The number that decimal digits write, the most significant first.
pub open spec fn digits_value(d: Seq<u8>) -> nat
    decreases d.len(),
{
    if d.len() == 0 {
        0
    } else {
        digits_value(d.drop_last()) * 10 + (d.last() - 0x30) as nat
    }
}

/// Every byte is a decimal digit.
pub open spec fn all_digits(d: Seq<u8>) -> bool {
    forall|j: int| 0 <= j < d.len() ==> spec_is_digit(#[trigger] d[j])
}

/// The non-negative integer that `b` writes in decimal: one or more digits, which a
/// plus sign may precede.  Nothing else is a number: no blank, no minus sign.
pub open spec fn spec_decimal(b: Seq<u8>) -> Option<nat> {
    let d = if b.len() > 0 && b[0] == PLUS {
        b.skip(1)
    } else {
        b
    };
    if d.len() > 0 && all_digits(d) {
        Some(digits_value(d))
    } else {
        None
    }
}

/// The digits read so far never write more than all the digits do.
pub proof fn lemma_digits_prefix(d: Seq<u8>, k: int)
    requires
        0 <= k <= d.len(),
        all_digits(d),
    ensures
        digits_value(d.take(k)) <= digits_value(d),
    decreases d.len() - k,
{
    if k < d.len() {
        lemma_digits_prefix(d, k + 1);
        assert(d.take(k + 1).drop_last() =~= d.take(k));
    } else {
        assert(d.take(k) =~= d);
    }
}

/// Reads a non-negative decimal integer that fits the machine's `usize`.
pub fn parse_decimal(b: &[u8]) -> (r: Option<usize>)
    ensures
        r == match spec_decimal(b@) {
            Some(n) => if n <= usize::MAX {
                Some(n as usize)
            } else {
                None
            },
            None => None,
        },
{
    let start: usize = if b.len() > 0 && b[0] == PLUS {
        1
    } else {
        0
    };
    let ghost d = b@.skip(start as int);
    if start == b.len() {
        return None;
    }
    let mut k: usize = start;
    let mut acc: usize = 0;
    while k < b.len()
        invariant
            start <= k <= b.len(),
            start < b.len(),
            d == b@.skip(start as int),
            d == (if b@.len() > 0 && b@[0] == PLUS {
                b@.skip(1)
            } else {
                b@
            }),
            all_digits(d.take(k - start)),
            acc == digits_value(d.take(k - start)),
        decreases b.len() - k,
    {
        let c = b[k];
        assert(c == d[k - start]);
        if !is_digit(c) {
            return None;
        }
        proof {
            assert(d.take(k - start + 1).drop_last() =~= d.take(k - start));
            assert forall|j: int| 0 <= j < k - start + 1 implies spec_is_digit(
                #[trigger] d.take(k - start + 1)[j],
            ) by {
                if j < k - start {
                    assert(d.take(k - start + 1)[j] == d.take(k - start)[j]);
                }
            }
            if all_digits(d) {
                lemma_digits_prefix(d, k - start + 1);
            }
        }
        let scaled = match acc.checked_mul(10) {
            Some(x) => x,
            None => {
                return None;
            },
        };
        acc = match scaled.checked_add((c - 0x30) as usize) {
            Some(x) => x,
            None => {
                return None;
            },
        };
        k = k + 1;
    }
    assert(d.take(k - start) =~= d);
    Some(acc)
}

/// The body length that the headers announce: none where `CONTENT-LENGTH` is
/// absent, and a malformed message where its value is not a non-negative decimal
/// integer that fits the machine.
pub open spec fn spec_content_length(e: Seq<Entry>) -> Result<Option<nat>, Failure> {
    match lookup(e, CommonHeaders::ContentLength.name()) {
        None => Ok(None),
        Some(v) => match spec_decimal(encode_utf8(v)) {
            Some(n) => if n <= usize::MAX {
                Ok(Some(n))
            } else {
                Err(Failure::Malformed(Cause::InvalidContentLength, seq![Context::Body]))
            },
            None => Err(Failure::Malformed(Cause::InvalidContentLength, seq![Context::Body])),
        },
    }
}

/// Decides from the headers how many bytes of body follow them.
pub fn content_length(headers: &Headers) -> (r: Result<Option<usize>, Error>)
    ensures
        match r {
            Ok(Some(n)) => spec_content_length(headers.entries()) == Ok::<Option<nat>, Failure>(
                Some(n as nat),
            ),
            Ok(None) => spec_content_length(headers.entries()) == Ok::<Option<nat>, Failure>(None),
            Err(e) => spec_content_length(headers.entries()) == Err::<Option<nat>, Failure>(e@),
        },
{
    match headers.get(CommonHeaders::ContentLength.as_str()) {
        None => Ok(None),
        Some(v) => match parse_decimal(v.as_str().as_bytes()) {
            Some(n) => Ok(Some(n)),
            None => Err(Error::malformed(Cause::InvalidContentLength).within(Context::Body)),
        },
    }
}

/// The bytes of a body: the first `len` bytes of the input where a length is given,
/// which must all be there, and the whole input where none is.
pub open spec fn spec_frame(s: Seq<u8>, len: Option<nat>) -> Parsed<Seq<u8>> {
    match len {
        Some(n) => if s.len() < n {
            Err(Failure::Incomplete)
        } else {
            Ok((s.take(n as int), n as int))
        },
        None => Ok((s, s.len() as int)),
    }
}

/// The encoding that the headers declare for the body, if any.
pub open spec fn spec_encoding(e: Seq<Entry>) -> Result<Option<Encoding>, Failure> {
    match lookup(e, CommonHeaders::ContentEncoding.name()) {
        None => Ok(None),
        Some(v) => Encoding::spec_from_value(v),
    }
}

/// A body in one part: the bytes that the framing cut off the input.
#[derive(Debug, PartialEq, Eq)]
pub struct SinglePartBody {
    data: Vec<u8>,
}

impl View for SinglePartBody {
    type V = Seq<u8>;

    closed spec fn view(&self) -> Seq<u8> {
        self.data@
    }
}

impl SinglePartBody {
    /// The bytes of the body.
    pub fn as_bytes(&self) -> (b: &[u8])
        ensures
            b@ == self@,
    {
        self.data.as_slice()
    }

    /// The body as text, if it is valid UTF-8.
    pub fn text(&self) -> (r: Result<&str, Error>)
        ensures
            match r {
                Ok(s) => spec_text(self@) == Ok::<Seq<char>, Failure>(s@),
                Err(e) => spec_text(self@) == Err::<Seq<char>, Failure>(e@),
            },
    {
        text(self.data.as_slice())
    }

    /// Copies a body of `len` bytes off the head of `i`, or all of `i` where no
    /// length is given.
    pub fn parse<'a>(i: Input<'a>, len: Option<usize>) -> (r: ParseResult<'a, SinglePartBody>)
        ensures
            agrees(
                r,
                i@,
                spec_frame(
                    i@,
                    match len {
                        Some(n) => Some(n as nat),
                        None => None,
                    },
                ),
            ),
    {
        let n = match len {
            Some(n) => n,
            None => i.len(),
        };
        if i.len() < n {
            return Err(Error::Incomplete);
        }
        let data = vstd::slice::slice_subrange(i, 0, n);
        let rest = vstd::slice::slice_subrange(i, n, i.len());
        assert(i@.take(i@.len() as int) =~= i@);
        Ok((rest, SinglePartBody { data: vstd::slice::slice_to_vec(data) }))
    }

    /// Puts the outcome of a decoding in place of the body: the decoded bytes where
    /// there are some, and a malformed body, left as it was, where there are none.
    pub fn replace(&mut self, decoded: Option<Vec<u8>>) -> (r: Result<(), Error>)
        ensures
            match decoded {
                Some(d) => r is Ok && final(self)@ == d@,
                None => {
                    &&& r matches Err(e)
                    &&& e@ == Failure::Malformed(Cause::CorruptBody, Seq::empty())
                    &&& final(self)@ == old(self)@
                },
            },
    {
        match decoded {
            Some(d) => {
                self.data = d;
                Ok(())
            },
            None => Err(Error::malformed(Cause::CorruptBody)),
        }
    }

    /// Decodes the body in place as the headers' `CONTENT-ENCODING` says.  Without
    /// that header, or with an empty value, the body is left as it is.  A value
    /// other than `GZIP`, `DEFLATE` and `ZLIB` is an unsupported feature, and a body
    /// that is not data of the declared encoding is malformed; both leave the body
    /// as it is.  A body is to be decoded once.
    pub fn decompress(&mut self, headers: &Headers) -> (r: Result<&Self, Error>)
        ensures
            match spec_encoding(headers.entries()) {
                Err(f) => {
                    &&& r matches Err(e)
                    &&& e@ == f
                    &&& final(self)@ == old(self)@
                },
                Ok(None) => r is Ok && final(self)@ == old(self)@,
                Ok(Some(encoding)) => match encoding.decoded(old(self)@) {
                    Some(d) => r is Ok && final(self)@ == d,
                    None => {
                        &&& r matches Err(e)
                        &&& e@ == Failure::Malformed(Cause::CorruptBody, Seq::empty())
                        &&& final(self)@ == old(self)@
                    },
                },
            },
            r matches Ok(body) ==> body@ == final(self)@,
    {
        let encoding = match headers.get(CommonHeaders::ContentEncoding.as_str()) {
            None => None,
            Some(v) => match Encoding::from_value(v.as_str()) {
                Ok(e) => e,
                Err(e) => {
                    return Err(e);
                },
            },
        };
        match encoding {
            None => Ok(self),
            Some(e) => {
                let decoded = e.decode(self.data.as_slice());
                match self.replace(decoded) {
                    Ok(()) => Ok(self),
                    Err(e) => Err(e),
                }
            },
        }
    }
}

/// A body in several parts.  Nothing reads or writes the parts yet: the bytes are
/// carried as they are.
#[derive(Debug, PartialEq, Eq)]
pub struct MultiPartBody {
    data: Vec<u8>,
}

impl View for MultiPartBody {
    type V = Seq<u8>;

    closed spec fn view(&self) -> Seq<u8> {
        self.data@
    }
}

/// The body of a message.  A message without a body has none of these.
#[derive(Debug, PartialEq, Eq)]
pub enum Body {
    Single(SinglePartBody),
    Multi(MultiPartBody),
}

/// The mathematical value of a [`Body`].
pub enum Content {
    Single(Seq<u8>),
    Multi(Seq<u8>),
}

impl Content {
    /// The bytes that the body puts on the wire.
    pub open spec fn bytes(self) -> Seq<u8> {
        match self {
            Content::Single(b) => b,
            Content::Multi(b) => b,
        }
    }
}

/// The mathematical value of a body that may be absent.
pub open spec fn view_of(body: Option<Body>) -> Option<Content> {
    match body {
        Some(b) => Some(b@),
        None => None,
    }
}

impl View for Body {
    type V = Content;

    open spec fn view(&self) -> Content {
        match self {
            Body::Single(b) => Content::Single(b@),
            Body::Multi(b) => Content::Multi(b@),
        }
    }
}

impl Body {
    /// The body rule: a body in one part, framed by `len`.
    pub open spec fn spec_parse(s: Seq<u8>, len: Option<nat>) -> Parsed<Content> {
        match spec_frame(s, len) {
            Ok((b, n)) => Ok((Content::Single(b), n)),
            Err(f) => Err(f),
        }
    }

    /// Reads a body of `len` bytes off the head of `i`, or all of `i` where no
    /// length is given.
    pub fn parse<'a>(i: Input<'a>, len: Option<usize>) -> (r: ParseResult<'a, Body>)
        ensures
            agrees(
                r,
                i@,
                Body::spec_parse(
                    i@,
                    match len {
                        Some(n) => Some(n as nat),
                        None => None,
                    },
                ),
            ),
    {
        match SinglePartBody::parse(i, len) {
            Ok((rest, body)) => Ok((rest, Body::Single(body))),
            Err(e) => Err(e),
        }
    }

    /// The body of a message with the headers `e`: where they announce a length,
    /// exactly that many bytes; where they announce none, no body at all, or, if
    /// `to_end` is set, all the bytes that are there.
    pub open spec fn spec_frame(s: Seq<u8>, e: Seq<Entry>, to_end: bool) -> Parsed<
        Option<Content>,
    > {
        match spec_content_length(e) {
            Err(f) => Err(f),
            Ok(None) => if to_end {
                Ok((Some(Content::Single(s)), s.len() as int))
            } else {
                Ok((None, 0))
            },
            Ok(Some(n)) => match Body::spec_parse(s, Some(n)) {
                Ok((content, k)) => Ok((Some(content), k)),
                Err(f) => Err(f),
            },
        }
    }

    /// Cuts the body of a message with the given headers off the head of `i`.  A
    /// message without `CONTENT-LENGTH` has no body, unless `to_end` says that the
    /// body is whatever follows the headers.
    pub fn frame<'a>(i: Input<'a>, headers: &Headers, to_end: bool) -> (r: ParseResult<
        'a,
        Option<Body>,
    >)
        ensures
            match r {
                Ok((rest, body)) => {
                    let expected = Body::spec_frame(i@, headers.entries(), to_end);
                    &&& expected is Ok
                    &&& view_of(body) == expected->Ok_0.0
                    &&& 0 <= expected->Ok_0.1 <= i@.len()
                    &&& rest@ == i@.skip(expected->Ok_0.1)
                },
                Err(e) => Body::spec_frame(i@, headers.entries(), to_end) == Err::<
                    (Option<Content>, int),
                    Failure,
                >(e@),
            },
    {
        match content_length(headers) {
            Err(e) => Err(e),
            Ok(Some(n)) => match Body::parse(i, Some(n)) {
                Ok((rest, body)) => Ok((rest, Some(body))),
                Err(e) => Err(e),
            },
            Ok(None) => if to_end {
                match Body::parse(i, None) {
                    Ok((rest, body)) => Ok((rest, Some(body))),
                    Err(e) => Err(e),
                }
            } else {
                Ok((i, None))
            },
        }
    }

    /// The bytes of the body.
    pub fn as_bytes(&self) -> (b: &[u8])
        ensures
            b@ == self@.bytes(),
    {
        match self {
            Body::Single(b) => b.as_bytes(),
            Body::Multi(b) => b.data.as_slice(),
        }
    }
}

} // verus!
