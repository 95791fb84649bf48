//! Laws of the wire format: what holds of every message, stated over the grammar and
//! proved.

use crate::body::{spec_content_length, Body, Content};
use crate::headers::{
    block_bytes, collect, lemma_collect, lemma_position_unique, line_bytes, lookup, CommonHeaders,
    Entry, Header, Headers,
};
use crate::method::Method;
use crate::parse::{
    colon_space_bytes, crlf_bytes, lemma_tag_reads_literal, lemma_take_while_reads_run,
    spec_crlf, Context, Failure,
};
use crate::request::{spec_request_line, Protocol, Request, RequestModel};
use crate::response::Response;
use crate::text::{spec_text, uppercase};
use crate::token::{spec_is_alphabetic, spec_is_blank, ByteClass, COLON, CR, LF, SP};
use vstd::prelude::*;
use vstd::utf8::encode_utf8;

verus! {

/// A method's token is made of three to seven letters and names that method alone.
pub proof fn lemma_token_names_its_method(m: Method)
    ensures
        3 <= m.token().len() <= 7,
        forall|j: int| 0 <= j < m.token().len() ==> spec_is_alphabetic(#[trigger] m.token()[j]),
        Method::spec_from_token(m.token()) == Some(m),
{
}

/// The method rule reads a method's token back as that method, whatever follows the
/// byte that ends it.
pub proof fn lemma_method_rule_reads_token(m: Method, tail: Seq<u8>)
    requires
        tail.len() > 0,
        !spec_is_alphabetic(tail[0]),
    ensures
        Method::spec_parse(m.token() + tail) == Ok::<(Method, int), Failure>(
            (m, m.token().len() as int),
        ),
        (m.token() + tail).skip(m.token().len() as int) == tail,
{
    lemma_token_names_its_method(m);
    lemma_take_while_reads_run(m.token(), tail, ByteClass::Alphabetic);
}

/// Round trip of the method: in the wire form of any request the method rule reads
/// the request's method, and a request that is parsed from that wire form has the
/// same method as the request that was written.
pub proof fn lemma_method_round_trip(r: RequestModel)
    ensures
        Method::spec_parse(r.wire()) == Ok::<(Method, int), Failure>(
            (r.method, r.method.token().len() as int),
        ),
        Request::spec_parse(r.wire()) matches Ok((parsed, _)) ==> parsed.method == r.method,
{
    let tail = r.wire().skip(r.method.token().len() as int);
    assert(r.wire() =~= r.method.token() + tail);
    lemma_method_rule_reads_token(r.method, tail);
}

/// Missing length: a request that parses and has no `CONTENT-LENGTH` header has no
/// body.
pub proof fn lemma_missing_length_no_body(s: Seq<u8>)
    requires
        Request::spec_parse(s) is Ok,
        lookup(Request::spec_parse(s)->Ok_0.0.headers, CommonHeaders::ContentLength.name()) is None,
    ensures
        Request::spec_parse(s)->Ok_0.0.body is None,
{
}

/// Exact framing: the body of a request that parses is exactly as long as its
/// `CONTENT-LENGTH` says.
pub proof fn lemma_exact_framing(s: Seq<u8>, n: nat)
    requires
        Request::spec_parse(s) is Ok,
        spec_content_length(Request::spec_parse(s)->Ok_0.0.headers) == Ok::<Option<nat>, Failure>(
            Some(n),
        ),
    ensures
        Request::spec_parse(s)->Ok_0.0.body matches Some(Content::Single(bytes)) && bytes.len()
            == n,
{
}

/// A response that parses has a body: as long as `CONTENT-LENGTH` says, or else all
/// the bytes after the headers.
pub proof fn lemma_response_has_body(s: Seq<u8>)
    requires
        Response::spec_parse(s) is Ok,
    ensures
        Response::spec_parse(s)->Ok_0.0.body is Some,
{
}

/// A text that can stand as the path of a request line: it is not empty, does not
/// begin with a blank, and holds no space.
pub open spec fn wire_safe_path(p: Seq<char>) -> bool {
    let b = encode_utf8(p);
    &&& b.len() > 0
    &&& !spec_is_blank(b[0])
    &&& forall|j: int| 0 <= j < b.len() ==> #[trigger] b[j] != SP
}

/// A text that can stand as the version of a request line: it does not begin with a
/// blank and holds no carriage return.
pub open spec fn wire_safe_version(v: Seq<char>) -> bool {
    let b = encode_utf8(v);
    &&& b.len() > 0 ==> !spec_is_blank(b[0])
    &&& forall|j: int| 0 <= j < b.len() ==> #[trigger] b[j] != CR
}

/// A header that can stand as a line: its key holds no colon and does not begin
/// with a line terminator, and its value holds no carriage return.
pub open spec fn wire_safe_entry(e: Entry) -> bool {
    let k = encode_utf8(e.0);
    let v = encode_utf8(e.1);
    &&& forall|j: int| 0 <= j < k.len() ==> #[trigger] k[j] != COLON
    &&& !(k.len() >= 2 && k[0] == CR && k[1] == LF)
    &&& forall|j: int| 0 <= j < v.len() ==> #[trigger] v[j] != CR
}

/// The request line of a method, a safe path and a safe version is read back as
/// that method and the bytes of those texts, whatever follows the line.
#[verifier::rlimit(40)]
pub proof fn lemma_request_line_round_trip(
    m: Method,
    path: Seq<char>,
    version: Seq<char>,
    tail: Seq<u8>,
)
    requires
        wire_safe_path(path),
        wire_safe_version(version),
    ensures
        spec_request_line(
            m.token() + seq![SP] + encode_utf8(path) + seq![SP] + encode_utf8(version)
                + crlf_bytes() + tail,
        ) == Ok::<((Method, Seq<u8>, Seq<u8>), int), Failure>(
            (
                (m, encode_utf8(path), encode_utf8(version)),
                (m.token().len() + encode_utf8(path).len() + encode_utf8(version).len() + 4) as int,
            ),
        ),
        (m.token() + seq![SP] + encode_utf8(path) + seq![SP] + encode_utf8(version)
            + crlf_bytes() + tail).skip(
            (m.token().len() + encode_utf8(path).len() + encode_utf8(version).len() + 4) as int,
        ) == tail,
{
    let p = encode_utf8(path);
    let v = encode_utf8(version);
    let t5 = crlf_bytes() + tail;
    let t4 = v + t5;
    let t3 = seq![SP] + t4;
    let t2 = p + t3;
    let t1 = seq![SP] + t2;
    lemma_concat(m.token(), seq![SP], p, seq![SP], v, crlf_bytes(), tail);
    lemma_method_rule_reads_token(m, t1);
    lemma_take_while_reads_run(seq![SP], t2, ByteClass::Blank);
    lemma_take_while_reads_run(p, t3, ByteClass::Until(SP));
    assert(t4[0] == if v.len() > 0 {
        v[0]
    } else {
        CR
    });
    lemma_take_while_reads_run(seq![SP], t4, ByteClass::Blank);
    lemma_take_while_reads_run(v, t5, ByteClass::Until(CR));
    lemma_tag_reads_literal(crlf_bytes(), tail);
    lemma_skip_prefix(m.token() + seq![SP] + p + seq![SP] + v + crlf_bytes(), tail);
}

/// Skipping a prefix leaves what follows it.
proof fn lemma_skip_prefix(a: Seq<u8>, t: Seq<u8>)
    ensures
        (a + t).skip(a.len() as int) == t,
{
    assert((a + t).skip(a.len() as int) =~= t);
}

/// The wire form of a request is its request line, followed by the header block,
/// its terminator and the body.
proof fn lemma_wire_splits(r: RequestModel)
    ensures
        r.wire() == (r.method.token() + seq![SP] + encode_utf8(r.path) + seq![SP] + encode_utf8(
            r.version,
        ) + crlf_bytes()) + (block_bytes(r.headers) + crlf_bytes() + body_bytes(r)),
{
    let line = r.method.token() + seq![SP] + encode_utf8(r.path) + seq![SP] + encode_utf8(
        r.version,
    ) + crlf_bytes();
    lemma_regroup(line, block_bytes(r.headers), crlf_bytes(), body_bytes(r));
}

/// Joining four sequences from the left is joining the last three to the first.
proof fn lemma_regroup(a: Seq<u8>, b: Seq<u8>, c: Seq<u8>, d: Seq<u8>)
    ensures
        a + b + c + d == a + (b + c + d),
{
}

/// Joining seven sequences from the left is joining them from the right.
proof fn lemma_concat(
    a: Seq<u8>,
    b: Seq<u8>,
    c: Seq<u8>,
    d: Seq<u8>,
    e: Seq<u8>,
    f: Seq<u8>,
    g: Seq<u8>,
)
    ensures
        a + b + c + d + e + f + g == a + (b + (c + (d + (e + (f + g))))),
{
}

/// The headers as a parser leaves them: key and value in uppercase.
pub open spec fn normalized(e: Seq<Entry>) -> Seq<Entry> {
    e.map_values(|entry: Entry| (uppercase(entry.0), uppercase(entry.1)))
}

/// The line of a safe header is read back as that header in uppercase, whatever
/// follows the line.
#[verifier::rlimit(40)]
pub proof fn lemma_header_round_trip(e: Entry, tail: Seq<u8>)
    requires
        wire_safe_entry(e),
    ensures
        Header::spec_parse(line_bytes(e) + tail) == Ok::<(Entry, int), Failure>(
            ((uppercase(e.0), uppercase(e.1)), line_bytes(e).len() as int),
        ),
        spec_crlf(line_bytes(e) + tail) is Err,
        spec_crlf(line_bytes(e) + tail)->Err_0 is Malformed,
        (line_bytes(e) + tail).skip(line_bytes(e).len() as int) == tail,
{
    let k = encode_utf8(e.0);
    let v = encode_utf8(e.1);
    let s = line_bytes(e) + tail;
    let t4 = tail;
    let t3 = crlf_bytes() + t4;
    let t2 = v + t3;
    let t1 = colon_space_bytes() + t2;
    assert(s =~= k + t1);
    lemma_take_while_reads_run(k, t1, ByteClass::Until(COLON));
    lemma_tag_reads_literal(colon_space_bytes(), t2);
    lemma_take_while_reads_run(v, t3, ByteClass::Until(CR));
    lemma_tag_reads_literal(crlf_bytes(), t4);
    vstd::utf8::encode_utf8_valid_utf8(e.0);
    vstd::utf8::encode_utf8_valid_utf8(e.1);
    vstd::utf8::encode_utf8_decode_utf8(e.0);
    vstd::utf8::encode_utf8_decode_utf8(e.1);
    // The line does not begin with a line terminator: the key does not, and a key of
    // fewer than two bytes is followed by the colon.
    assert(s.take(2) != crlf_bytes().take(2)) by {
        if s.take(2) == crlf_bytes().take(2) {
            assert(s.take(2)[0] == CR);
            assert(s.take(2)[1] == LF);
        }
    }
}

/// The lines of a block start with the line of its first header.
pub proof fn lemma_block_front(e: Seq<Entry>)
    requires
        e.len() > 0,
    ensures
        block_bytes(e) == line_bytes(e.first()) + block_bytes(e.drop_first()),
    decreases e.len(),
{
    if e.len() == 1 {
        assert(block_bytes(e.drop_last()) =~= Seq::<u8>::empty());
    } else {
        lemma_block_front(e.drop_last());
        assert(e.drop_last().drop_first() =~= e.drop_first().drop_last());
    }
}

/// A block of safe headers, closed by a bare line terminator, is read back line by
/// line as those headers in uppercase, whatever follows the block.
#[verifier::rlimit(40)]
pub proof fn lemma_block_round_trip(e: Seq<Entry>, tail: Seq<u8>)
    requires
        forall|j: int| 0 <= j < e.len() ==> wire_safe_entry(#[trigger] e[j]),
    ensures
        Headers::spec_lines(block_bytes(e) + crlf_bytes() + tail) == Ok::<
            (Seq<Entry>, int),
            Failure,
        >((normalized(e), block_bytes(e).len() as int + 2)),
        Headers::spec_parse(block_bytes(e) + crlf_bytes() + tail) == Ok::<
            (Seq<Entry>, int),
            Failure,
        >((collect(normalized(e)), block_bytes(e).len() as int + 2)),
        (block_bytes(e) + crlf_bytes() + tail).skip(block_bytes(e).len() as int + 2) == tail,
    decreases e.len(),
{
    let s = block_bytes(e) + crlf_bytes() + tail;
    if e.len() == 0 {
        lemma_tag_reads_literal(crlf_bytes(), tail);
        assert(normalized(e) =~= Seq::<Entry>::empty());
    } else {
        let first = e.first();
        let others = e.drop_first();
        let rest = block_bytes(others) + crlf_bytes() + tail;
        lemma_block_front(e);
        assert(s =~= line_bytes(first) + rest);
        lemma_header_round_trip(first, rest);
        lemma_block_round_trip(others, tail);
        assert(seq![(uppercase(first.0), uppercase(first.1))] + normalized(others) =~= normalized(
            e,
        ));
        assert(s.skip(block_bytes(e).len() as int + 2) =~= rest.skip(
            block_bytes(others).len() as int + 2,
        ));
    }
}

/// A request whose texts can stand on the wire as they are.
pub open spec fn wire_safe(r: RequestModel) -> bool {
    &&& wire_safe_path(r.path)
    &&& wire_safe_version(r.version)
    &&& forall|j: int| 0 <= j < r.headers.len() ==> wire_safe_entry(#[trigger] r.headers[j])
}

/// The bytes that a request's body puts on the wire.
pub open spec fn body_bytes(r: RequestModel) -> Seq<u8> {
    match r.body {
        Some(content) => content.bytes(),
        None => Seq::empty(),
    }
}

/// What parsing makes of a request that was written out: the same method, path and
/// version, the headers in uppercase, a plaintext request without host or port, and
/// the body that the headers frame in `written`.
pub open spec fn read_back(r: RequestModel, body: Option<Content>) -> RequestModel {
    RequestModel {
        method: r.method,
        protocol: Protocol::HTTP,
        host: None,
        path: r.path,
        port: None,
        version: r.version,
        headers: collect(normalized(r.headers)),
        body: body,
    }
}

/// Round trip of a request: the wire form of a request whose texts are safe parses
/// as far as the headers, and gives back method, path and version and the headers
/// in uppercase.  Whether the parse succeeds as a whole is up to the framing of the
/// body bytes by those headers.
#[verifier::rlimit(40)]
pub proof fn lemma_request_round_trip(r: RequestModel)
    requires
        wire_safe(r),
    ensures
        match Body::spec_frame(body_bytes(r), collect(normalized(r.headers)), false) {
            Ok((body, n)) => Request::spec_parse(r.wire()) == Ok::<(RequestModel, int), Failure>(
                (read_back(r, body), r.wire().len() - body_bytes(r).len() + n),
            ),
            Err(f) => Request::spec_parse(r.wire()) == Err::<(RequestModel, int), Failure>(
                f.within(Context::Request),
            ),
        },
{
    let p = encode_utf8(r.path);
    let v = encode_utf8(r.version);
    let t2 = body_bytes(r);
    let t1 = block_bytes(r.headers) + crlf_bytes() + t2;
    let line = r.method.token() + seq![SP] + p + seq![SP] + v + crlf_bytes();
    let s = r.wire();
    let n1 = line.len() as int;
    let n2 = block_bytes(r.headers).len() as int + 2;
    let entries = collect(normalized(r.headers));
    assert(s == line + t1) by {
        lemma_wire_splits(r);
    }
    assert(spec_request_line(s) == Ok::<((Method, Seq<u8>, Seq<u8>), int), Failure>(
        ((r.method, p, v), n1),
    ) && s.skip(n1) == t1) by {
        lemma_request_line_round_trip(r.method, r.path, r.version, t1);
    }
    assert(Headers::spec_parse(t1) == Ok::<(Seq<Entry>, int), Failure>((entries, n2)) && t1.skip(
        n2,
    ) == t2) by {
        lemma_block_round_trip(r.headers, t2);
    }
    assert(spec_text(p) == Ok::<Seq<char>, Failure>(r.path)) by {
        vstd::utf8::encode_utf8_valid_utf8(r.path);
        vstd::utf8::encode_utf8_decode_utf8(r.path);
    }
    assert(spec_text(v) == Ok::<Seq<char>, Failure>(r.version)) by {
        vstd::utf8::encode_utf8_valid_utf8(r.version);
        vstd::utf8::encode_utf8_decode_utf8(r.version);
    }
}

/// Round trip of a request as it is first built: for every method, the wire form of
/// the default request with that method parses, and gives back the method, the path
/// `/` and the version `HTTP/1.1`, without headers or body.
#[verifier::rlimit(40)]
pub proof fn lemma_built_request_round_trip(r: RequestModel)
    requires
        r.path == "/"@,
        r.version == "HTTP/1.1"@,
        r.headers == Seq::<Entry>::empty(),
        r.body is None,
    ensures
        Request::spec_parse(r.wire()) == Ok::<(RequestModel, int), Failure>(
            (
                RequestModel { protocol: Protocol::HTTP, host: None, port: None, ..r },
                r.wire().len() as int,
            ),
        ),
{
    lemma_default_texts_are_safe();
    let none = Seq::<Entry>::empty();
    assert(lookup(none, CommonHeaders::ContentLength.name()) is None) by {
        lemma_position_unique(none, CommonHeaders::ContentLength.name(), 0);
    }
    assert(Body::spec_frame(body_bytes(r), none, false) == Ok::<(Option<Content>, int), Failure>(
        (None, 0),
    ));
    lemma_request_round_trip(r);
    assert(read_back(r, None) == (RequestModel {
        protocol: Protocol::HTTP,
        host: None,
        port: None,
        ..r
    }));
}

/// The default path and version can stand on the wire.
pub proof fn lemma_default_texts_are_safe()
    ensures
        wire_safe_path("/"@),
        wire_safe_version("HTTP/1.1"@),
{
    reveal_strlit("/");
    reveal_strlit("HTTP/1.1");
    let path = "/"@;
    let version = "HTTP/1.1"@;
    vstd::utf8::is_ascii_chars_encode_utf8(path);
    vstd::utf8::is_ascii_chars_encode_utf8(version);
}

/// Header case-insensitivity: in a block of safe headers, a header is found under
/// the uppercase form of its key, with the uppercase form of its value, provided
/// that no later header of the block has a key with the same uppercase form.
pub proof fn lemma_header_found_in_uppercase(e: Seq<Entry>, i: int, tail: Seq<u8>)
    requires
        forall|j: int| 0 <= j < e.len() ==> wire_safe_entry(#[trigger] e[j]),
        0 <= i < e.len(),
        forall|j: int| i < j < e.len() ==> uppercase((#[trigger] e[j]).0) != uppercase(e[i].0),
    ensures
        Headers::spec_parse(block_bytes(e) + crlf_bytes() + tail) matches Ok((entries, _))
            && lookup(entries, uppercase(e[i].0)) == Some(uppercase(e[i].1)),
{
    lemma_block_round_trip(e, tail);
    let lines = normalized(e);
    let k = uppercase(e[i].0);
    lemma_collect(lines, k);
    assert(lines[i].0 == k);
    assert forall|j: int| i < j < lines.len() implies (#[trigger] lines[j]).0 != k by {
        assert(lines[j].0 == uppercase(e[j].0));
    }
}

} // verus!
