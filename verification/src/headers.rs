//! Headers: a store of key/value pairs of text in which a key occurs once.
//!
//! On the wire a header is `KEY ":" SP VALUE CRLF`, and a bare `CRLF` ends the block.
//! The parser puts both key and value into uppercase, so a header is found under its
//! uppercase name whatever case the wire used.  A header that repeats a key replaces
//! the earlier value.

use crate::parse::{
    agrees, colon_space_bytes, crlf, crlf_bytes, in_context, spec_crlf, spec_tag,
    spec_take_while, tag, take_till, Cause, Context, Error, Failure, Input, ParseResult, Parsed,
};
use crate::text::{append, serialize_crlf, spec_text, str_eq, text, to_uppercase, uppercase};
use crate::token::{lemma_span_exists, ByteClass, COLON, CR, SP};
use vstd::prelude::*;
use vstd::utf8::encode_utf8;

verus! {

/// The names of the headers that the library itself reads or writes.
#[derive(Debug, Clone, Copy, PartialEq, Eq, Structural)]
pub enum CommonHeaders {
    Host,
    Connection,
    Accept,
    AcceptEncoding,
    ContentType,
    ContentLength,
    ContentEncoding,
}

impl CommonHeaders {
    /// The header's name, in the uppercase form under which parsed headers are kept.
    pub open spec fn name(self) -> Seq<char> {
        match self {
            CommonHeaders::Host => "HOST"@,
            CommonHeaders::Connection => "CONNECTION"@,
            CommonHeaders::Accept => "ACCEPT"@,
            CommonHeaders::AcceptEncoding => "ACCEPT-ENCODING"@,
            CommonHeaders::ContentType => "CONTENT-TYPE"@,
            CommonHeaders::ContentLength => "CONTENT-LENGTH"@,
            CommonHeaders::ContentEncoding => "CONTENT-ENCODING"@,
        }
    }

    /// The header's name.
    pub fn as_str(&self) -> (s: &'static str)
        ensures
            s@ == self.name(),
    {
        match self {
            CommonHeaders::Host => "HOST",
            CommonHeaders::Connection => "CONNECTION",
            CommonHeaders::Accept => "ACCEPT",
            CommonHeaders::AcceptEncoding => "ACCEPT-ENCODING",
            CommonHeaders::ContentType => "CONTENT-TYPE",
            CommonHeaders::ContentLength => "CONTENT-LENGTH",
            CommonHeaders::ContentEncoding => "CONTENT-ENCODING",
        }
    }

    /// The header's name, as an owned text.
    pub fn to_string(&self) -> (s: String)
        ensures
            s@ == self.name(),
    {
        self.as_str().to_owned()
    }
}

/// A key and its value, as texts.
pub type Entry = (Seq<char>, Seq<char>);

/// `n` entries at the head of `e` have a key other than `k`, and the entry after
/// them, if there is one, has the key `k`.
pub open spec fn is_position(e: Seq<Entry>, k: Seq<char>, n: int) -> bool {
    &&& 0 <= n <= e.len()
    &&& forall|j: int| 0 <= j < n ==> (#[trigger] e[j]).0 != k
    &&& n < e.len() ==> e[n].0 == k
}

/// The index of the first entry with the key `k`, or the length of `e` if there is
/// none.
pub open spec fn position(e: Seq<Entry>, k: Seq<char>) -> int {
    choose|n: int| is_position(e, k, n)
}

/// Entries have exactly one position for a key.
pub proof fn lemma_position_unique(e: Seq<Entry>, k: Seq<char>, n: int)
    requires
        is_position(e, k, n),
    ensures
        position(e, k) == n,
{
    let m = position(e, k);
    if m < n {
        assert(e[m].0 != k);
    } else if n < m {
        assert(e[n].0 != k);
    }
}

/// Every key has a position in every sequence of entries.
pub proof fn lemma_position_exists(e: Seq<Entry>, k: Seq<char>)
    ensures
        is_position(e, k, position(e, k)),
    decreases e.len(),
{
    if e.len() == 0 || e[0].0 == k {
        assert(is_position(e, k, 0));
    } else {
        let t = e.skip(1);
        lemma_position_exists(t, k);
        let m = position(t, k);
        assert forall|j: int| 0 <= j < m + 1 implies (#[trigger] e[j]).0 != k by {
            if j > 0 {
                assert(e[j] == t[j - 1]);
            }
        }
        if m + 1 < e.len() {
            assert(e[m + 1] == t[m]);
        }
        assert(is_position(e, k, m + 1));
    }
}

/// The value kept under the key `k`.
pub open spec fn lookup(e: Seq<Entry>, k: Seq<char>) -> Option<Seq<char>> {
    let p = position(e, k);
    if p < e.len() {
        Some(e[p].1)
    } else {
        None
    }
}

/// The entries after `v` is put under `k`: the value of an entry with that key is
/// replaced where it stands, and a new key goes to the end.
pub open spec fn upsert(e: Seq<Entry>, k: Seq<char>, v: Seq<char>) -> Seq<Entry> {
    let p = position(e, k);
    if p < e.len() {
        e.update(p, (k, v))
    } else {
        e.push((k, v))
    }
}

/// The entries after each of `lines` is put into an empty store, first to last.
pub open spec fn collect(lines: Seq<Entry>) -> Seq<Entry>
    decreases lines.len(),
{
    if lines.len() == 0 {
        Seq::empty()
    } else {
        upsert(collect(lines.drop_last()), lines.last().0, lines.last().1)
    }
}

/// No key occurs twice.
pub open spec fn unique_keys(e: Seq<Entry>) -> bool {
    forall|i: int, j: int| 0 <= i < j < e.len() ==> (#[trigger] e[i]).0 != (#[trigger] e[j]).0
}

/// The mapping from key to value that the entries stand for.
pub open spec fn map_of(e: Seq<Entry>) -> Map<Seq<char>, Seq<char>> {
    Map::new(|k: Seq<char>| lookup(e, k) is Some, |k: Seq<char>| lookup(e, k)->Some_0)
}

/// Putting a value under a key keeps the keys unique, makes the key map to the
/// value, and leaves every other key as it was.
pub proof fn lemma_upsert(e: Seq<Entry>, k: Seq<char>, v: Seq<char>)
    requires
        unique_keys(e),
    ensures
        unique_keys(upsert(e, k, v)),
        map_of(upsert(e, k, v)) == map_of(e).insert(k, v),
        lookup(upsert(e, k, v), k) == Some(v),
        forall|other: Seq<char>| other != k ==> lookup(upsert(e, k, v), other) == lookup(e, other),
{
    let p = position(e, k);
    let u = upsert(e, k, v);
    lemma_position_exists(e, k);
    // The key stands in `u` where it stood in `e`, or at the new end.
    lemma_position_unique(u, k, p);
    // Another key stands in `u` where it stood in `e`, with the entry it had.
    assert forall|other: Seq<char>| other != k implies lookup(u, other) == lookup(e, other) by {
        lemma_position_exists(e, other);
        let q = position(e, other);
        if q < e.len() {
            lemma_position_unique(u, other, q);
        } else {
            lemma_position_unique(u, other, u.len() as int);
        }
    }
    // The keys of `u` are those of `e`, and `k` once.
    assert forall|i: int, j: int| 0 <= i < j < u.len() implies (#[trigger] u[i]).0
        != (#[trigger] u[j]).0 by {
        if j < e.len() {
            assert(e[i].0 != e[j].0);
        } else {
            assert(e[i].0 != k);
        }
    }
}

/// The entries that lines leave have unique keys; a key is found under the value of
/// the last line that has it, and a key of no line is not found.
pub proof fn lemma_collect(lines: Seq<Entry>, k: Seq<char>)
    ensures
        unique_keys(collect(lines)),
        (forall|j: int| 0 <= j < lines.len() ==> (#[trigger] lines[j]).0 != k) ==> lookup(
            collect(lines),
            k,
        ) is None,
        forall|i: int|
            0 <= i < lines.len() && (#[trigger] lines[i]).0 == k && (forall|j: int|
                i < j < lines.len() ==> (#[trigger] lines[j]).0 != k) ==> lookup(
                collect(lines),
                k,
            ) == Some(lines[i].1),
    decreases lines.len(),
{
    if lines.len() == 0 {
        lemma_position_unique(collect(lines), k, 0);
    } else {
        let before = lines.drop_last();
        let last = lines.last();
        lemma_collect(before, k);
        lemma_upsert(collect(before), last.0, last.1);
        assert forall|i: int|
            0 <= i < lines.len() && (#[trigger] lines[i]).0 == k && (forall|j: int|
                i < j < lines.len() ==> (#[trigger] lines[j]).0 != k) implies lookup(
            collect(lines),
            k,
        ) == Some(lines[i].1) by {
            if i < lines.len() - 1 {
                assert(before[i] == lines[i]);
                assert forall|j: int| i < j < before.len() implies (#[trigger] before[j]).0
                    != k by {
                    assert(before[j] == lines[j]);
                }
            }
        }
        if forall|j: int| 0 <= j < lines.len() ==> (#[trigger] lines[j]).0 != k {
            assert forall|j: int| 0 <= j < before.len() implies (#[trigger] before[j]).0 != k by {
                assert(before[j] == lines[j]);
            }
        }
    }
}

/// The bytes of one header line.
pub open spec fn line_bytes(entry: Entry) -> Seq<u8> {
    encode_utf8(entry.0) + colon_space_bytes() + encode_utf8(entry.1) + crlf_bytes()
}

/// The bytes of the header lines of `e`, in order.
pub open spec fn block_bytes(e: Seq<Entry>) -> Seq<u8>
    decreases e.len(),
{
    if e.len() == 0 {
        Seq::empty()
    } else {
        block_bytes(e.drop_last()) + line_bytes(e.last())
    }
}

/// One header: a key and its value.
#[derive(Debug, PartialEq, Eq)]
pub struct Header {
    pub key: String,
    pub value: String,
}

impl View for Header {
    type V = Entry;

    open spec fn view(&self) -> Entry {
        (self.key@, self.value@)
    }
}

impl Header {
    /// One header line as it stands on the wire: the key up to the first colon, a
    /// colon and a space, the value up to the first carriage return, and the line
    /// terminator.  The texts are returned as they stand.
    pub open spec fn spec_line(s: Seq<u8>) -> Parsed<(Seq<u8>, Seq<u8>)> {
        match spec_take_while(s, ByteClass::Until(COLON)) {
            Err(f) => Err(f),
            Ok((key, n1)) => match spec_tag(s.skip(n1), colon_space_bytes()) {
                Err(f) => Err(f),
                Ok((_, n2)) => match spec_take_while(
                    s.skip(n1).skip(n2),
                    ByteClass::Until(CR),
                ) {
                    Err(f) => Err(f),
                    Ok((value, n3)) => match spec_crlf(s.skip(n1).skip(n2).skip(n3)) {
                        Err(f) => Err(f),
                        Ok((_, n4)) => Ok(((key, value), n1 + n2 + n3 + n4)),
                    },
                },
            },
        }
    }

    /// The header rule: a header line whose key and value are valid UTF-8, both put
    /// into uppercase.
    pub open spec fn spec_parse(s: Seq<u8>) -> Parsed<Entry> {
        in_context(
            match Header::spec_line(s) {
                Err(f) => Err(f),
                Ok(((key, value), n)) => match spec_text(key) {
                    Err(f) => Err(f),
                    Ok(k) => match spec_text(value) {
                        Err(f) => Err(f),
                        Ok(v) => Ok(((uppercase(k), uppercase(v)), n)),
                    },
                },
            },
            Context::Header,
        )
    }

    /// A header that parses takes at least its two separators off the input.
    pub proof fn lemma_consumes(s: Seq<u8>)
        requires
            Header::spec_parse(s) is Ok,
        ensures
            4 <= Header::spec_parse(s)->Ok_0.1,
            Header::spec_parse(s)->Ok_0.1 == Header::spec_line(s)->Ok_0.1,
    {
        let n1 = spec_take_while(s, ByteClass::Until(COLON))->Ok_0.1;
        let n2 = spec_tag(s.skip(n1), colon_space_bytes())->Ok_0.1;
        let n3 = spec_take_while(s.skip(n1).skip(n2), ByteClass::Until(CR))->Ok_0.1;
        lemma_span_exists(s, ByteClass::Until(COLON));
        lemma_span_exists(s.skip(n1).skip(n2), ByteClass::Until(CR));
    }

    fn parse_line<'a>(i: Input<'a>) -> (r: ParseResult<'a, (Input<'a>, Input<'a>)>)
        ensures
            agrees(r, i@, Header::spec_line(i@)),
    {
        let (i1, key) = take_till(i, COLON)?;
        let ghost n1 = i@.len() - i1@.len();
        let lit: [u8; 2] = [COLON, SP];
        let (i2, _) = tag(i1, lit.as_slice())?;
        let ghost n2 = i1@.len() - i2@.len();
        let (i3, value) = take_till(i2, CR)?;
        let ghost n3 = i2@.len() - i3@.len();
        let (i4, _) = crlf(i3)?;
        let ghost n4 = i3@.len() - i4@.len();
        assert(i4@ =~= i@.skip(n1 + n2 + n3 + n4));
        Ok((i4, (key, value)))
    }

    /// Reads one header off the head of `i`.
    pub fn parse<'a>(i: Input<'a>) -> (r: ParseResult<'a, Header>)
        ensures
            agrees(r, i@, Header::spec_parse(i@)),
    {
        match Header::parse_line(i) {
            Err(e) => Err(e.within(Context::Header)),
            Ok((rest, (key, value))) => match text(key) {
                Err(e) => Err(e.within(Context::Header)),
                Ok(k) => match text(value) {
                    Err(e) => Err(e.within(Context::Header)),
                    Ok(v) => Ok((rest, Header { key: to_uppercase(k), value: to_uppercase(v) })),
                },
            },
        }
    }
}

/// What is known of the lines before the cursor, joined with what the rest of the
/// block gives.
pub open spec fn prepend(
    lines: Seq<Entry>,
    consumed: int,
    rest: Parsed<Seq<Entry>>,
) -> Parsed<Seq<Entry>> {
    match rest {
        Ok((more, n)) => Ok((lines + more, consumed + n)),
        Err(f) => Err(f),
    }
}

/// The headers of a message.  Its view is the mapping from key to value.
#[derive(Debug, PartialEq, Eq)]
pub struct Headers {
    headers: Vec<Header>,
}

impl View for Headers {
    type V = Map<Seq<char>, Seq<char>>;

    open spec fn view(&self) -> Map<Seq<char>, Seq<char>> {
        map_of(self.entries())
    }
}

impl Headers {
    /// The entries in the order in which they are kept and written out.
    pub closed spec fn entries(&self) -> Seq<Entry> {
        self.headers@.map_values(|h: Header| h@)
    }

    #[verifier::type_invariant]
    spec fn well_formed(&self) -> bool {
        unique_keys(self.entries())
    }

    /// The lines of a header block in wire order: header after header until a bare
    /// line terminator, which is consumed.  The terminator is tried first at each
    /// line.
    pub open spec fn spec_lines(s: Seq<u8>) -> Parsed<Seq<Entry>>
        decreases s.len(),
    {
        match spec_crlf(s) {
            Ok((_, n)) => Ok((Seq::empty(), n)),
            Err(Failure::Malformed(_, _)) => match Header::spec_parse(s) {
                Err(f) => Err(f),
                Ok((entry, n)) => if 0 < n <= s.len() {
                    prepend(seq![entry], n, Headers::spec_lines(s.skip(n)))
                } else {
                    Err(Failure::Malformed(Cause::UnexpectedByte, Seq::empty()))
                },
            },
            Err(f) => Err(f),
        }
    }

    /// The headers rule: the entries that the lines of the block leave in an empty
    /// store when they are put into it in wire order.
    pub open spec fn spec_parse(s: Seq<u8>) -> Parsed<Seq<Entry>> {
        in_context(
            match Headers::spec_lines(s) {
                Ok((lines, n)) => Ok((collect(lines), n)),
                Err(f) => Err(f),
            },
            Context::Headers,
        )
    }

    /// A store without headers.
    pub fn new() -> (h: Headers)
        ensures
            h.entries() == Seq::<Entry>::empty(),
            h@ == Map::<Seq<char>, Seq<char>>::empty(),
    {
        let h = Headers { headers: Vec::new() };
        proof {
            assert forall|k: Seq<char>| lookup(h.entries(), k) is None by {
                lemma_position_unique(h.entries(), k, 0);
            }
        }
        h
    }

    /// The number of headers.
    pub fn len(&self) -> (n: usize)
        ensures
            n == self.entries().len(),
    {
        self.headers.len()
    }

    /// The index of the entry with the key `key`, or the number of entries.
    fn find(&self, key: &str) -> (p: usize)
        ensures
            p == position(self.entries(), key@),
            p <= self.entries().len(),
    {
        let mut p: usize = 0;
        while p < self.headers.len() && !str_eq(self.headers[p].key.as_str(), key)
            invariant
                p <= self.headers.len(),
                forall|j: int| 0 <= j < p ==> (#[trigger] self.entries()[j]).0 != key@,
            decreases self.headers.len() - p,
        {
            p = p + 1;
        }
        proof {
            lemma_position_unique(self.entries(), key@, p as int);
        }
        p
    }

    /// Puts `val` under `key`, in place of the value that the key had, if any.  Key
    /// and value are kept as they are given.
    pub fn insert(&mut self, key: &str, val: &str)
        ensures
            final(self).entries() == upsert(old(self).entries(), key@, val@),
            final(self)@ == old(self)@.insert(key@, val@),
    {
        proof {
            use_type_invariant(&*self);
            lemma_upsert(self.entries(), key@, val@);
        }
        let p = self.find(key);
        let entry = Header { key: key.to_owned(), value: val.to_owned() };
        let mut kept: Vec<Header> = Vec::new();
        core::mem::swap(&mut self.headers, &mut kept);
        if p < kept.len() {
            kept.set(p, entry);
        } else {
            kept.push(entry);
        }
        proof {
            assert(kept@.map_values(|h: Header| h@) =~= upsert(
                old(self).entries(),
                key@,
                val@,
            ));
        }
        self.headers = kept;
    }

    /// The value kept under `key`.
    pub fn get(&self, key: &str) -> (r: Option<&String>)
        ensures
            match r {
                Some(v) => lookup(self.entries(), key@) == Some(v@),
                None => lookup(self.entries(), key@) is None,
            },
            r is Some <==> self@.contains_key(key@),
            r matches Some(v) ==> v@ == self@[key@],
    {
        let p = self.find(key);
        if p < self.headers.len() {
            Some(&self.headers[p].value)
        } else {
            None
        }
    }

    /// Whether a value is kept under `key`.
    pub fn contains_key(&self, key: &str) -> (b: bool)
        ensures
            b == self@.contains_key(key@),
            b == (lookup(self.entries(), key@) is Some),
    {
        let p = self.find(key);
        p < self.headers.len()
    }

    /// Appends every header as `KEY ":" SP VALUE CRLF`, in the order of the entries.
    pub fn serialize(&self, out: &mut Vec<u8>)
        ensures
            final(out)@ == old(out)@ + block_bytes(self.entries()),
            unique_keys(self.entries()),
    {
        proof {
            use_type_invariant(self);
        }
        let mut k: usize = 0;
        while k < self.headers.len()
            invariant
                k <= self.headers.len(),
                out@ == old(out)@ + block_bytes(self.entries().take(k as int)),
            decreases self.headers.len() - k,
        {
            let header = &self.headers[k];
            append(out, header.key.as_str().as_bytes());
            let sep: [u8; 2] = [COLON, SP];
            append(out, sep.as_slice());
            append(out, header.value.as_str().as_bytes());
            serialize_crlf(out);
            assert(self.entries().take(k + 1).drop_last() =~= self.entries().take(k as int));
            k = k + 1;
        }
        assert(self.entries().take(k as int) =~= self.entries());
    }

    /// Reads a header block off the head of `i`.
    pub fn parse<'a>(i: Input<'a>) -> (r: ParseResult<'a, Headers>)
        ensures
            match r {
                Ok((rest, h)) => {
                    &&& Headers::spec_parse(i@) is Ok
                    &&& h.entries() == Headers::spec_parse(i@)->Ok_0.0
                    &&& 0 <= Headers::spec_parse(i@)->Ok_0.1 <= i@.len()
                    &&& rest@ == i@.skip(Headers::spec_parse(i@)->Ok_0.1)
                    &&& unique_keys(h.entries())
                },
                Err(e) => Headers::spec_parse(i@) == Err::<(Seq<Entry>, int), Failure>(e@),
            },
    {
        let mut headers = Headers::new();
        let mut rest = i;
        let ghost mut lines: Seq<Entry> = Seq::empty();
        let ghost mut consumed: int = 0;
        assert(forall|r: Parsed<Seq<Entry>>|
            r is Ok ==> (#[trigger] prepend(lines, consumed, r))->Ok_0.0 =~= r->Ok_0.0);
        loop
            invariant
                0 <= consumed <= i@.len(),
                rest@ == i@.skip(consumed),
                headers.entries() == collect(lines),
                Headers::spec_lines(i@) == prepend(lines, consumed, Headers::spec_lines(rest@)),
            decreases rest@.len(),
        {
            match crlf(rest) {
                Ok((after, _)) => {
                    proof {
                        use_type_invariant(&headers);
                    }
                    return Ok((after, headers));
                },
                Err(Error::Malformed(_, _)) => {},
                Err(e) => {
                    return Err(e.within(Context::Headers));
                },
            }
            match Header::parse(rest) {
                Err(e) => {
                    return Err(e.within(Context::Headers));
                },
                Ok((after, header)) => {
                    let ghost n = Header::spec_parse(rest@)->Ok_0.1;
                    proof {
                        Header::lemma_consumes(rest@);
                        let tail = Headers::spec_lines(after@);
                        if tail is Ok {
                            assert(lines + (seq![header@] + tail->Ok_0.0) =~= lines.push(header@)
                                + tail->Ok_0.0);
                        }
                        assert(lines.push(header@).drop_last() =~= lines);
                        lines = lines.push(header@);
                        consumed = consumed + n;
                    }
                    headers.insert(header.key.as_str(), header.value.as_str());
                    rest = after;
                },
            }
        }
    }
}

} // verus!
