//! Resumption: what a parser has decided, more bytes do not change.
//!
//! A caller that reads from a stream parses from the start of its buffer each time
//! bytes arrive.  The laws here say why that is sound: a result other than
//! `Incomplete` is settled.  Once a rule has read a value off a buffer, or has
//! rejected the buffer, it does the same on every extension of that buffer.

use crate::body::{spec_content_length, Body};
use crate::headers::{Entry, Header, Headers};
use crate::method::Method;
use crate::parse::{
    colon_space_bytes, crlf_bytes, spec_crlf, spec_tag, spec_take_while, spec_take_while1,
    Failure, Parsed,
};
use crate::request::{spec_request_line, Request, RequestStatus};
use crate::response::Response;
use crate::status::{ResponseStatus, StatusCode};
use crate::token::{lemma_span_exists, lemma_span_unique, span, ByteClass, COLON, CR, SP};
use vstd::prelude::*;

verus! {

/// A result that is final: a value, or a failure other than the call for more bytes.
pub open spec fn settled<T>(r: Parsed<T>) -> bool {
    !(r matches Err(Failure::Incomplete))
}

/// A settled result of `on_prefix` is the result on the extended input too, and the
/// bytes left after a value are those left before, followed by the extension `t`.
pub open spec fn carries_over<T>(
    on_prefix: Parsed<T>,
    on_whole: Parsed<T>,
    s: Seq<u8>,
    t: Seq<u8>,
) -> bool {
    &&& settled(on_prefix) ==> on_whole == on_prefix
    &&& on_prefix matches Ok((_, n)) ==> 0 <= n <= s.len() && (s + t).skip(n) == s.skip(n) + t
}

/// A run that has met its end stays as it is when bytes are added.
pub proof fn lemma_take_while_settled(s: Seq<u8>, t: Seq<u8>, class: ByteClass)
    ensures
        carries_over(spec_take_while(s, class), spec_take_while(s + t, class), s, t),
        carries_over(spec_take_while1(s, class), spec_take_while1(s + t, class), s, t),
{
    lemma_span_exists(s, class);
    let n = span(s, class);
    if n < s.len() {
        assert forall|j: int| 0 <= j < n implies class.has(#[trigger] (s + t)[j]) by {
            assert((s + t)[j] == s[j]);
        }
        assert((s + t)[n] == s[n]);
        lemma_span_unique(s + t, class, n);
        assert((s + t).take(n) =~= s.take(n));
        assert((s + t).skip(n) =~= s.skip(n) + t);
    }
}

/// A literal that was read or refused stays so when bytes are added.
pub proof fn lemma_tag_settled(s: Seq<u8>, t: Seq<u8>, lit: Seq<u8>)
    ensures
        carries_over(spec_tag(s, lit), spec_tag(s + t, lit), s, t),
{
    let w = s + t;
    let m = if s.len() < lit.len() {
        s.len() as int
    } else {
        lit.len() as int
    };
    let k = if w.len() < lit.len() {
        w.len() as int
    } else {
        lit.len() as int
    };
    if s.take(m) != lit.take(m) {
        if w.take(k) == lit.take(k) {
            assert forall|j: int| 0 <= j < m implies s.take(m)[j] == lit.take(m)[j] by {
                assert(w.take(k)[j] == lit.take(k)[j]);
            }
            assert(s.take(m) =~= lit.take(m));
        }
    } else if s.len() >= lit.len() {
        assert(w.take(k) =~= s.take(m));
        assert(w.skip(lit.len() as int) =~= s.skip(lit.len() as int) + t);
    }
}

/// The method rule is settled.
pub proof fn lemma_method_settled(s: Seq<u8>, t: Seq<u8>)
    ensures
        carries_over(Method::spec_parse(s), Method::spec_parse(s + t), s, t),
{
    lemma_take_while_settled(s, t, ByteClass::Alphabetic);
}

/// The request line is settled.
#[verifier::rlimit(40)]
pub proof fn lemma_request_line_settled(s: Seq<u8>, t: Seq<u8>)
    ensures
        carries_over(spec_request_line(s), spec_request_line(s + t), s, t),
{
    lemma_method_settled(s, t);
    if Method::spec_parse(s) is Ok {
        let n1 = Method::spec_parse(s)->Ok_0.1;
        let s1 = s.skip(n1);
        lemma_take_while_settled(s1, t, ByteClass::Blank);
        if spec_take_while1(s1, ByteClass::Blank) is Ok {
            let n2 = spec_take_while1(s1, ByteClass::Blank)->Ok_0.1;
            let s2 = s1.skip(n2);
            lemma_take_while_settled(s2, t, ByteClass::Until(SP));
            if spec_take_while(s2, ByteClass::Until(SP)) is Ok {
                let n3 = spec_take_while(s2, ByteClass::Until(SP))->Ok_0.1;
                let s3 = s2.skip(n3);
                lemma_take_while_settled(s3, t, ByteClass::Blank);
                if spec_take_while1(s3, ByteClass::Blank) is Ok {
                    let n4 = spec_take_while1(s3, ByteClass::Blank)->Ok_0.1;
                    let s4 = s3.skip(n4);
                    lemma_take_while_settled(s4, t, ByteClass::Until(CR));
                    if spec_take_while(s4, ByteClass::Until(CR)) is Ok {
                        let n5 = spec_take_while(s4, ByteClass::Until(CR))->Ok_0.1;
                        let s5 = s4.skip(n5);
                        lemma_tag_settled(s5, t, crlf_bytes());
                        if spec_crlf(s5) is Ok {
                            let n6 = spec_crlf(s5)->Ok_0.1;
                            lemma_skips(s, t, n1, n2, n3);
                            lemma_skips(s.skip(n1 + n2 + n3), t, n4, n5, n6);
                            assert(s.skip(n1 + n2 + n3).skip(n4 + n5 + n6) =~= s.skip(
                                n1 + n2 + n3 + n4 + n5 + n6,
                            ));
                            assert((s + t).skip(n1 + n2 + n3).skip(n4 + n5 + n6) =~= (s + t).skip(
                                n1 + n2 + n3 + n4 + n5 + n6,
                            ));
                        }
                    }
                }
            }
        }
    }
}

/// Three skips in a row are one skip, before and after bytes are added.
proof fn lemma_skips(s: Seq<u8>, t: Seq<u8>, a: int, b: int, c: int)
    requires
        0 <= a <= s.len(),
        0 <= b <= s.skip(a).len(),
        0 <= c <= s.skip(a).skip(b).len(),
    ensures
        0 <= a + b + c <= s.len(),
        s.skip(a).skip(b).skip(c) == s.skip(a + b + c),
        (s + t).skip(a + b + c) == s.skip(a + b + c) + t,
{
}

/// A header line is settled.
#[verifier::rlimit(40)]
pub proof fn lemma_header_line_settled(s: Seq<u8>, t: Seq<u8>)
    ensures
        carries_over(Header::spec_line(s), Header::spec_line(s + t), s, t),
{
    lemma_take_while_settled(s, t, ByteClass::Until(COLON));
    if spec_take_while(s, ByteClass::Until(COLON)) is Ok {
        let n1 = spec_take_while(s, ByteClass::Until(COLON))->Ok_0.1;
        let s1 = s.skip(n1);
        lemma_tag_settled(s1, t, colon_space_bytes());
        if spec_tag(s1, colon_space_bytes()) is Ok {
            let n2 = spec_tag(s1, colon_space_bytes())->Ok_0.1;
            let s2 = s1.skip(n2);
            lemma_take_while_settled(s2, t, ByteClass::Until(CR));
            if spec_take_while(s2, ByteClass::Until(CR)) is Ok {
                let n3 = spec_take_while(s2, ByteClass::Until(CR))->Ok_0.1;
                let s3 = s2.skip(n3);
                lemma_tag_settled(s3, t, crlf_bytes());
                if spec_crlf(s3) is Ok {
                    let n4 = spec_crlf(s3)->Ok_0.1;
                    lemma_skips(s, t, n1, n2, n3);
                    assert(s.skip(n1 + n2 + n3).skip(n4) =~= s.skip(n1 + n2 + n3 + n4));
                    assert((s + t).skip(n1 + n2 + n3).skip(n4) =~= (s + t).skip(
                        n1 + n2 + n3 + n4,
                    ));
                }
            }
        }
    }
}

/// The header rule is settled.
pub proof fn lemma_header_settled(s: Seq<u8>, t: Seq<u8>)
    ensures
        carries_over(Header::spec_parse(s), Header::spec_parse(s + t), s, t),
{
    lemma_header_line_settled(s, t);
}

/// The lines of a header block are settled.
#[verifier::rlimit(40)]
pub proof fn lemma_lines_settled(s: Seq<u8>, t: Seq<u8>)
    ensures
        carries_over(Headers::spec_lines(s), Headers::spec_lines(s + t), s, t),
    decreases s.len(),
{
    lemma_tag_settled(s, t, crlf_bytes());
    if spec_crlf(s) matches Err(Failure::Malformed(_, _)) {
        lemma_header_settled(s, t);
        if Header::spec_parse(s) is Ok {
            let n = Header::spec_parse(s)->Ok_0.1;
            if 0 < n <= s.len() {
                lemma_lines_settled(s.skip(n), t);
                if Headers::spec_lines(s.skip(n)) is Ok {
                    let m = Headers::spec_lines(s.skip(n))->Ok_0.1;
                    assert(s.skip(n).skip(m) =~= s.skip(n + m));
                    assert((s + t).skip(n).skip(m) =~= (s + t).skip(n + m));
                }
            }
        }
    }
}

/// The headers rule is settled.
pub proof fn lemma_headers_settled(s: Seq<u8>, t: Seq<u8>)
    ensures
        carries_over(Headers::spec_parse(s), Headers::spec_parse(s + t), s, t),
{
    lemma_lines_settled(s, t);
}

/// A body that is framed by a length, or that is absent, is settled.
pub proof fn lemma_frame_settled(s: Seq<u8>, t: Seq<u8>, e: Seq<Entry>)
    ensures
        carries_over(Body::spec_frame(s, e, false), Body::spec_frame(s + t, e, false), s, t),
        spec_content_length(e) !is Ok || spec_content_length(e)->Ok_0 is Some ==> carries_over(
            Body::spec_frame(s, e, true),
            Body::spec_frame(s + t, e, true),
            s,
            t,
        ),
{
    assert((s + t).skip(0) =~= s.skip(0) + t);
    if spec_content_length(e) is Ok && spec_content_length(e)->Ok_0 is Some {
        let n = spec_content_length(e)->Ok_0->Some_0;
        if n <= s.len() {
            assert((s + t).take(n as int) =~= s.take(n as int));
            assert((s + t).skip(n as int) =~= s.skip(n as int) + t);
        }
    }
}

/// Resumption of a request: once a buffer has parsed as a request, or has been
/// rejected, every buffer that starts with it parses as the same request, or is
/// rejected for the same reason.  Only `Incomplete` can give way to another result.
#[verifier::rlimit(40)]
pub proof fn lemma_request_settled(s: Seq<u8>, t: Seq<u8>)
    ensures
        carries_over(Request::spec_parse(s), Request::spec_parse(s + t), s, t),
{
    lemma_request_line_settled(s, t);
    if spec_request_line(s) is Ok {
        let n1 = spec_request_line(s)->Ok_0.1;
        let s1 = s.skip(n1);
        lemma_headers_settled(s1, t);
        if Headers::spec_parse(s1) is Ok {
            let e = Headers::spec_parse(s1)->Ok_0.0;
            let n2 = Headers::spec_parse(s1)->Ok_0.1;
            let s2 = s1.skip(n2);
            lemma_frame_settled(s2, t, e);
            if Body::spec_frame(s2, e, false) is Ok {
                let n3 = Body::spec_frame(s2, e, false)->Ok_0.1;
                lemma_skips(s, t, n1, n2, n3);
            }
        }
    }
}

/// The start line of a request is settled.
pub proof fn lemma_request_status_settled(s: Seq<u8>, t: Seq<u8>)
    ensures
        carries_over(RequestStatus::spec_parse(s), RequestStatus::spec_parse(s + t), s, t),
{
    lemma_request_line_settled(s, t);
}

/// The status code rule is settled.
pub proof fn lemma_status_code_settled(s: Seq<u8>, t: Seq<u8>)
    ensures
        carries_over(StatusCode::spec_parse(s), StatusCode::spec_parse(s + t), s, t),
{
    lemma_take_while_settled(s, t, ByteClass::Digit);
    if spec_take_while1(s, ByteClass::Digit) is Ok {
        let n1 = spec_take_while1(s, ByteClass::Digit)->Ok_0.1;
        let s1 = s.skip(n1);
        lemma_take_while_settled(s1, t, ByteClass::Blank);
        if spec_take_while1(s1, ByteClass::Blank) is Ok {
            let n2 = spec_take_while1(s1, ByteClass::Blank)->Ok_0.1;
            assert(s.skip(n1).skip(n2) =~= s.skip(n1 + n2));
            assert((s + t).skip(n1).skip(n2) =~= (s + t).skip(n1 + n2));
        }
    }
}

/// The status line is settled.
#[verifier::rlimit(40)]
pub proof fn lemma_status_settled(s: Seq<u8>, t: Seq<u8>)
    ensures
        carries_over(ResponseStatus::spec_parse(s), ResponseStatus::spec_parse(s + t), s, t),
{
    lemma_take_while_settled(s, t, ByteClass::Until(SP));
    if spec_take_while(s, ByteClass::Until(SP)) is Ok {
        let n1 = spec_take_while(s, ByteClass::Until(SP))->Ok_0.1;
        let s1 = s.skip(n1);
        lemma_take_while_settled(s1, t, ByteClass::Blank);
        if spec_take_while1(s1, ByteClass::Blank) is Ok {
            let n2 = spec_take_while1(s1, ByteClass::Blank)->Ok_0.1;
            let s2 = s1.skip(n2);
            lemma_status_code_settled(s2, t);
            if StatusCode::spec_parse(s2) is Ok {
                let n3 = StatusCode::spec_parse(s2)->Ok_0.1;
                let s3 = s2.skip(n3);
                lemma_take_while_settled(s3, t, ByteClass::Until(CR));
                if spec_take_while(s3, ByteClass::Until(CR)) is Ok {
                    let n4 = spec_take_while(s3, ByteClass::Until(CR))->Ok_0.1;
                    let s4 = s3.skip(n4);
                    lemma_tag_settled(s4, t, crlf_bytes());
                    if spec_crlf(s4) is Ok {
                        let n5 = spec_crlf(s4)->Ok_0.1;
                        lemma_skips(s, t, n1, n2, n3);
                        assert(s.skip(n1 + n2 + n3).skip(n4).skip(n5) =~= s.skip(
                            n1 + n2 + n3 + n4 + n5,
                        ));
                        assert((s + t).skip(n1 + n2 + n3).skip(n4).skip(n5) =~= (s + t).skip(
                            n1 + n2 + n3 + n4 + n5,
                        ));
                    }
                }
            }
        }
    }
}

/// Resumption of a response: a rejection is settled, and so is a response whose
/// headers announce the length of its body.  A response without `CONTENT-LENGTH`
/// takes every byte that is there as its body, so it grows with its input.
#[verifier::rlimit(40)]
pub proof fn lemma_response_settled(s: Seq<u8>, t: Seq<u8>)
    ensures
        Response::spec_parse(s) is Err ==> carries_over(
            Response::spec_parse(s),
            Response::spec_parse(s + t),
            s,
            t,
        ),
        Response::spec_parse(s) matches Ok((response, _)) ==> (spec_content_length(
            response.headers,
        ) matches Ok(Some(_)) ==> carries_over(
            Response::spec_parse(s),
            Response::spec_parse(s + t),
            s,
            t,
        )),
{
    lemma_status_settled(s, t);
    if ResponseStatus::spec_parse(s) is Ok {
        let n1 = ResponseStatus::spec_parse(s)->Ok_0.1;
        let s1 = s.skip(n1);
        lemma_headers_settled(s1, t);
        if Headers::spec_parse(s1) is Ok {
            let e = Headers::spec_parse(s1)->Ok_0.0;
            let n2 = Headers::spec_parse(s1)->Ok_0.1;
            let s2 = s1.skip(n2);
            lemma_frame_settled(s2, t, e);
            if Body::spec_frame(s2, e, true) is Ok {
                let n3 = Body::spec_frame(s2, e, true)->Ok_0.1;
                lemma_skips(s, t, n1, n2, n3);
            }
        }
    }
}

} // verus!
