//! Text and bytes: UTF-8 validation at the point where bytes become text, case
//! normalization, comparison, and appending to an output buffer.

use crate::parse::{crlf_bytes, Error, Failure};
use crate::token::{CR, LF, SP};
use vstd::prelude::*;
use vstd::string::StringSliceAdditionalSpecFns;
use vstd::utf8::{decode_utf8, encode_utf8, valid_utf8};

verus! {

/// The uppercase form that `str::to_uppercase` gives a text: each character replaced
/// by its uppercase equivalent under the Unicode property `Uppercase`, which may be
/// more than one character long.
pub uninterp spec fn uppercase(s: Seq<char>) -> Seq<char>;

/// `str::to_uppercase`: returns the uppercase equivalent of the text as a new
/// `String`.  It depends on the text alone.
#[verifier::external_body]
pub(crate) fn to_uppercase(s: &str) -> (r: String)
    ensures
        r@ == uppercase(s@),
{
    s.to_uppercase()
}

/// `core::str::from_utf8`: succeeds exactly on valid UTF-8, and the text it returns
/// is a view of the same bytes.
#[verifier::external_body]
fn str_from_utf8<'a>(bytes: &'a [u8]) -> (r: Option<&'a str>)
    ensures
        r is Some <==> valid_utf8(bytes@),
        r matches Some(s) ==> s.spec_bytes() == bytes@,
{
    match core::str::from_utf8(bytes) {
        Ok(s) => Some(s),
        Err(_) => None,
    }
}

/// What reading `bytes` as text gives: the decoded characters, or an invalid-text
/// failure.
pub open spec fn spec_text(bytes: Seq<u8>) -> Result<Seq<char>, Failure> {
    if valid_utf8(bytes) {
        Ok(decode_utf8(bytes))
    } else {
        Err(Failure::EncodingError(Seq::empty()))
    }
}

/// Exposes `bytes` as text after checking that they are valid UTF-8.
pub fn text<'a>(bytes: &'a [u8]) -> (r: Result<&'a str, Error>)
    ensures
        match r {
            Ok(s) => spec_text(bytes@) == Ok::<Seq<char>, Failure>(s@) && s.spec_bytes() == bytes@,
            Err(e) => spec_text(bytes@) == Err::<Seq<char>, Failure>(e@),
        },
{
    match str_from_utf8(bytes) {
        Some(s) => {
            proof {
                vstd::utf8::encode_utf8_decode_utf8(s@);
            }
            Ok(s)
        },
        None => Err(Error::encoding()),
    }
}

/// Whether two byte slices hold the same bytes.
pub fn bytes_eq(a: &[u8], b: &[u8]) -> (r: bool)
    ensures
        r == (a@ == b@),
{
    if a.len() != b.len() {
        return false;
    }
    let mut k: usize = 0;
    while k < a.len()
        invariant
            k <= a.len(),
            a.len() == b.len(),
            forall|j: int| 0 <= j < k ==> a@[j] == b@[j],
        decreases a.len() - k,
    {
        if a[k] != b[k] {
            return false;
        }
        k = k + 1;
    }
    assert(a@ =~= b@);
    true
}

/// Two texts are the same exactly when their UTF-8 encodings are.
pub proof fn lemma_encoding_is_injective(a: Seq<char>, b: Seq<char>)
    ensures
        (encode_utf8(a) == encode_utf8(b)) <==> (a == b),
{
    vstd::utf8::encode_utf8_decode_utf8(a);
    vstd::utf8::encode_utf8_decode_utf8(b);
}

/// Whether two texts are the same, character for character.
pub fn str_eq(a: &str, b: &str) -> (r: bool)
    ensures
        r == (a@ == b@),
{
    proof {
        lemma_encoding_is_injective(a@, b@);
    }
    bytes_eq(a.as_bytes(), b.as_bytes())
}

/// Appends `bytes` to `out`.
pub fn append(out: &mut Vec<u8>, bytes: &[u8])
    ensures
        final(out)@ == old(out)@ + bytes@,
{
    let mut k: usize = 0;
    while k < bytes.len()
        invariant
            k <= bytes.len(),
            out@ == old(out)@ + bytes@.take(k as int),
        decreases bytes.len() - k,
    {
        out.push(bytes[k]);
        k = k + 1;
    }
}

/// Appends a line terminator to `out`.
pub fn serialize_crlf(out: &mut Vec<u8>)
    ensures
        final(out)@ == old(out)@ + crlf_bytes(),
{
    out.push(CR);
    out.push(LF);
}

/// Appends a space to `out`.
pub fn serialize_space(out: &mut Vec<u8>)
    ensures
        final(out)@ == old(out)@ + seq![SP],
{
    out.push(SP);
}

} // verus!
