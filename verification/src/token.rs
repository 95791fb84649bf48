//! Byte-level vocabulary of the wire format: the control bytes, the byte classes, and
//! the length of the run of a class at the head of a buffer.

use vstd::prelude::*;

verus! {

/// The space that separates the fields of a start line.
pub const SP: u8 = 0x20;

/// The horizontal tab.
pub const HTAB: u8 = 0x09;

/// The carriage return, first byte of a line terminator.
pub const CR: u8 = 0x0D;

/// The line feed, second byte of a line terminator.
pub const LF: u8 = 0x0A;

/// The colon that ends a header's key.
pub const COLON: u8 = 0x3A;

/// Bytes with a structural role in the wire format.
#[derive(Debug, Clone, Copy, PartialEq, Eq, Structural)]
pub enum CtrlChars {
    Space,
    CR,
    LF,
    Colon,
    ForwardSlash,
    BackSlash,
}

impl CtrlChars {
    /// The byte this control character stands for.
    pub open spec fn spec_byte(self) -> u8 {
        match self {
            CtrlChars::Space => SP,
            CtrlChars::CR => CR,
            CtrlChars::LF => LF,
            CtrlChars::Colon => COLON,
            CtrlChars::ForwardSlash => 0x2F,
            CtrlChars::BackSlash => 0x5C,
        }
    }

    /// The byte this control character stands for.
    #[verifier::when_used_as_spec(spec_byte)]
    pub fn byte(self) -> (b: u8)
        ensures
            b == self.spec_byte(),
    {
        match self {
            CtrlChars::Space => SP,
            CtrlChars::CR => CR,
            CtrlChars::LF => LF,
            CtrlChars::Colon => COLON,
            CtrlChars::ForwardSlash => 0x2F,
            CtrlChars::BackSlash => 0x5C,
        }
    }
}

/// The space, `0x20`.
pub open spec fn spec_is_space(b: u8) -> bool {
    b == SP
}

/// The carriage return, `0x0D`.
pub open spec fn spec_is_cr(b: u8) -> bool {
    b == CR
}

/// The colon, `0x3A`.
pub open spec fn spec_is_colon(b: u8) -> bool {
    b == COLON
}

/// An ASCII letter, `A`-`Z` or `a`-`z`.
pub open spec fn spec_is_alphabetic(b: u8) -> bool {
    (0x41 <= b <= 0x5A) || (0x61 <= b <= 0x7A)
}

/// An ASCII decimal digit, `0`-`9`.
pub open spec fn spec_is_digit(b: u8) -> bool {
    0x30 <= b <= 0x39
}

/// A blank separates the fields of a start line: a space or a horizontal tab.
pub open spec fn spec_is_blank(b: u8) -> bool {
    b == SP || b == HTAB
}

/// Whether `b` is a space.
#[verifier::when_used_as_spec(spec_is_space)]
pub fn is_space(b: u8) -> (r: bool)
    ensures
        r == spec_is_space(b),
{
    b == CtrlChars::Space.byte()
}

/// Whether `b` is a carriage return.
#[verifier::when_used_as_spec(spec_is_cr)]
pub fn is_cr(b: u8) -> (r: bool)
    ensures
        r == spec_is_cr(b),
{
    b == CtrlChars::CR.byte()
}

/// Whether `b` is a colon.
#[verifier::when_used_as_spec(spec_is_colon)]
pub fn is_colon(b: u8) -> (r: bool)
    ensures
        r == spec_is_colon(b),
{
    b == CtrlChars::Colon.byte()
}

/// Whether `b` is an ASCII letter.
#[verifier::when_used_as_spec(spec_is_alphabetic)]
pub fn is_alphabetic(b: u8) -> (r: bool)
    ensures
        r == spec_is_alphabetic(b),
{
    (0x41 <= b && b <= 0x5A) || (0x61 <= b && b <= 0x7A)
}

/// Whether `b` is an ASCII decimal digit.
#[verifier::when_used_as_spec(spec_is_digit)]
pub fn is_digit(b: u8) -> (r: bool)
    ensures
        r == spec_is_digit(b),
{
    0x30 <= b && b <= 0x39
}

/// Whether `b` is a space or a horizontal tab.
#[verifier::when_used_as_spec(spec_is_blank)]
pub fn is_blank(b: u8) -> (r: bool)
    ensures
        r == spec_is_blank(b),
{
    b == SP || b == HTAB
}

/// The sets of bytes that the grammar's tokens are made of.
#[derive(Debug, Clone, Copy, PartialEq, Eq, Structural)]
pub enum ByteClass {
    /// ASCII letters.
    Alphabetic,
    /// ASCII decimal digits.
    Digit,
    /// Space and horizontal tab.
    Blank,
    /// Every byte but the given delimiter.
    Until(u8),
}

impl ByteClass {
    /// Whether `b` belongs to the class.
    pub open spec fn has(self, b: u8) -> bool {
        match self {
            ByteClass::Alphabetic => spec_is_alphabetic(b),
            ByteClass::Digit => spec_is_digit(b),
            ByteClass::Blank => spec_is_blank(b),
            ByteClass::Until(stop) => b != stop,
        }
    }

    /// Whether `b` belongs to the class.
    #[verifier::when_used_as_spec(has)]
    pub fn contains(self, b: u8) -> (r: bool)
        ensures
            r == self.has(b),
    {
        match self {
            ByteClass::Alphabetic => is_alphabetic(b),
            ByteClass::Digit => is_digit(b),
            ByteClass::Blank => is_blank(b),
            ByteClass::Until(stop) => b != stop,
        }
    }
}

/// `n` bytes at the head of `s` are in `class`, and the byte after them, if there is
/// one, is not.
pub open spec fn is_span(s: Seq<u8>, class: ByteClass, n: int) -> bool {
    &&& 0 <= n <= s.len()
    &&& forall|j: int| 0 <= j < n ==> class.has(#[trigger] s[j])
    &&& n < s.len() ==> !class.has(s[n])
}

/// The length of the longest prefix of `s` made of bytes of `class`.
pub open spec fn span(s: Seq<u8>, class: ByteClass) -> int {
    choose|n: int| is_span(s, class, n)
}

/// A sequence has exactly one span of a class.
pub proof fn lemma_span_unique(s: Seq<u8>, class: ByteClass, n: int)
    requires
        is_span(s, class, n),
    ensures
        span(s, class) == n,
{
    // The chosen span `m` is a span too.  Were it shorter than `n`, the byte at `m`
    // would be both inside and outside the class; likewise were it longer.
    let m = span(s, class);
    if m < n {
        assert(class.has(s[m]));
    } else if n < m {
        assert(class.has(s[n]));
    }
}

/// Every sequence has a span.
pub proof fn lemma_span_exists(s: Seq<u8>, class: ByteClass)
    ensures
        is_span(s, class, span(s, class)),
    decreases s.len(),
{
    if s.len() == 0 || !class.has(s[0]) {
        assert(is_span(s, class, 0));
    } else {
        let t = s.skip(1);
        lemma_span_exists(t, class);
        let m = span(t, class);
        assert forall|j: int| 0 <= j < m + 1 implies class.has(#[trigger] s[j]) by {
            if j > 0 {
                assert(s[j] == t[j - 1]);
            }
        }
        if m + 1 < s.len() {
            assert(s[m + 1] == t[m]);
        }
        assert(is_span(s, class, m + 1));
    }
}

/// Counts the bytes of `class` at the head of `i`.
pub fn scan(i: &[u8], class: ByteClass) -> (n: usize)
    ensures
        n == span(i@, class),
        is_span(i@, class, n as int),
{
    let mut n: usize = 0;
    while n < i.len() && class.contains(i[n])
        invariant
            n <= i.len(),
            forall|j: int| 0 <= j < n ==> class.has(#[trigger] i@[j]),
        decreases i.len() - n,
    {
        n = n + 1;
    }
    proof {
        lemma_span_unique(i@, class, n as int);
    }
    n
}

} // verus!
