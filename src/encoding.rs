use vstd::prelude::*;
use base64::Engine;

use crate::error::RcliError;

verus! {

/// The characters of the URL-safe base64 alphabet.
pub open spec fn is_b64url_char(c: char) -> bool {
    ('A' <= c && c <= 'Z') || ('a' <= c && c <= 'z') || ('0' <= c && c <= '9') || c == '-' || c
        == '_'
}

/// URL-safe base64 text of `b`, without padding.
pub uninterp spec fn b64url_of(b: Seq<u8>) -> Seq<char>;

/// Standard base64 text of `b`, padded with `=`.
pub uninterp spec fn b64std_of(b: Seq<u8>) -> Seq<char>;

/// `s` with leading and trailing white space removed.
pub uninterp spec fn trimmed(s: Seq<char>) -> Seq<char>;

/// Relies on base64's `URL_SAFE_NO_PAD.encode`: the text depends on the bytes alone,
/// uses only the URL-safe alphabet, and has the unpadded length of `encoded_len`.
#[verifier::external_body]
pub(crate) fn b64url_encode(b: &[u8]) -> (r: String)
    ensures
        r@ == b64url_of(b@),
        forall|i: int| 0 <= i < r@.len() ==> is_b64url_char(#[trigger] r@[i]),
        r@.len() == (4 * b@.len() + 2) / 3,
{
    base64::engine::general_purpose::URL_SAFE_NO_PAD.encode(b)
}

/// Relies on base64's `URL_SAFE_NO_PAD.decode`: it accepts exactly the texts that the
/// encoder produces (no padding, no trailing bits) and returns the bytes they encode.
#[verifier::external_body]
pub(crate) fn b64url_decode(s: &str) -> (r: Option<Vec<u8>>)
    ensures
        match r {
            Some(v) => forall|w: Seq<u8>| #[trigger] b64url_of(w) == s@ <==> w == v@,
            None => forall|w: Seq<u8>| #[trigger] b64url_of(w) != s@,
        },
{
    base64::engine::general_purpose::URL_SAFE_NO_PAD.decode(s).ok()
}

/// Relies on base64's `STANDARD.encode`: the text depends on the bytes alone and has the
/// padded length of `encoded_len`, four characters for each started group of three bytes.
#[verifier::external_body]
fn b64std_encode(b: &[u8]) -> (r: String)
    ensures
        r@ == b64std_of(b@),
        r@.len() == 4 * ((b@.len() + 2) / 3),
{
    base64::engine::general_purpose::STANDARD.encode(b)
}

/// Relies on base64's `STANDARD.decode`: it accepts exactly the canonical padded texts
/// that the encoder produces and returns the bytes they encode.
#[verifier::external_body]
fn b64std_decode(s: &str) -> (r: Option<Vec<u8>>)
    ensures
        match r {
            Some(v) => forall|w: Seq<u8>| #[trigger] b64std_of(w) == s@ <==> w == v@,
            None => forall|w: Seq<u8>| #[trigger] b64std_of(w) != s@,
        },
{
    base64::engine::general_purpose::STANDARD.decode(s).ok()
}

/// Relies on `str::trim`: the result depends on the characters alone.
#[verifier::external_body]
fn trim(s: &str) -> (r: &str)
    ensures
        r@ == trimmed(s@),
{
    s.trim()
}

/// The two flavours of base64 text.
#[derive(Debug, Clone, Copy, PartialEq, Eq, Structural)]
pub enum Base64Format {
    /// The standard alphabet, padded with `=`.
    Standard,
    /// The URL-safe alphabet, without padding.
    UrlSafe,
}

/// The base64 text of `b` in the given format.
pub open spec fn b64_of(b: Seq<u8>, format: Base64Format) -> Seq<char> {
    match format {
        Base64Format::Standard => b64std_of(b),
        Base64Format::UrlSafe => b64url_of(b),
    }
}

/// Encodes the bytes read from the input as base64 text.
pub fn process_encode(data: &[u8], format: Base64Format) -> (r: String)
    ensures
        r@ == b64_of(data@, format),
        format == Base64Format::Standard ==> r@.len() == 4 * ((data@.len() + 2) / 3),
        format == Base64Format::UrlSafe ==> r@.len() == (4 * data@.len() + 2) / 3,
        format == Base64Format::UrlSafe ==> forall|i: int|
            0 <= i < r@.len() ==> is_b64url_char(#[trigger] r@[i]),
{
    match format {
        Base64Format::Standard => b64std_encode(data),
        Base64Format::UrlSafe => b64url_encode(data),
    }
}

/// Decodes base64 text read from the input, ignoring surrounding white space.
pub fn process_decode(text: &str, format: Base64Format) -> (r: Result<Vec<u8>, RcliError>)
    ensures
        match r {
            Ok(v) => forall|w: Seq<u8>| #[trigger] b64_of(w, format) == trimmed(text@) <==> w == v@,
            Err(e) => e == RcliError::Encoding && forall|w: Seq<u8>|
                #[trigger] b64_of(w, format) != trimmed(text@),
        },
{
    let t = trim(text);
    let decoded = match format {
        Base64Format::Standard => b64std_decode(t),
        Base64Format::UrlSafe => b64url_decode(t),
    };
    match decoded {
        Some(v) => {
            assert forall|w: Seq<u8>| #[trigger] b64_of(w, format) == trimmed(text@) <==> w == v@ by {
                if format == Base64Format::Standard {
                    assert(b64std_of(w) == t@ <==> w == v@);
                } else {
                    assert(b64url_of(w) == t@ <==> w == v@);
                }
            }
            Ok(v)
        },
        None => Err(RcliError::Encoding),
    }
}

} // verus!

verus! {

/// Whether two texts hold the same characters.
pub fn text_eq(a: &str, b: &str) -> (r: bool)
    ensures
        r == (a@ == b@),
{
    let n = a.unicode_len();
    if n != b.unicode_len() {
        return false;
    }
    let mut i: usize = 0;
    while i < n
        invariant
            n == a@.len(),
            n == b@.len(),
            i <= n,
            a@.subrange(0, i as int) == b@.subrange(0, i as int),
        decreases n - i,
    {
        if a.get_char(i) != b.get_char(i) {
            return false;
        }
        assert(a@.subrange(0, i + 1) == a@.subrange(0, i as int).push(a@[i as int]));
        assert(b@.subrange(0, i + 1) == b@.subrange(0, i as int).push(b@[i as int]));
        i = i + 1;
    }
    assert(a@ == a@.subrange(0, n as int));
    assert(b@ == b@.subrange(0, n as int));
    true
}

/// Whether two byte strings are equal.
pub fn bytes_eq(a: &[u8], b: &[u8]) -> (r: bool)
    ensures
        r == (a@ == b@),
{
    if a.len() != b.len() {
        return false;
    }
    let mut i: usize = 0;
    while i < a.len()
        invariant
            a@.len() == b@.len(),
            i <= a@.len(),
            a@.subrange(0, i as int) == b@.subrange(0, i as int),
        decreases a@.len() - i,
    {
        if a[i] != b[i] {
            return false;
        }
        assert(a@.subrange(0, i + 1) == a@.subrange(0, i as int).push(a@[i as int]));
        assert(b@.subrange(0, i + 1) == b@.subrange(0, i as int).push(b@[i as int]));
        i = i + 1;
    }
    assert(a@ == a@.subrange(0, a@.len() as int));
    assert(b@ == b@.subrange(0, b@.len() as int));
    true
}

/// The bytes of `a` followed by those of `b`.
pub fn concat_bytes(a: &[u8], b: &[u8]) -> (r: Vec<u8>)
    ensures
        r@ == a@ + b@,
{
    let mut r: Vec<u8> = Vec::new();
    let mut i: usize = 0;
    while i < a.len()
        invariant
            i <= a@.len(),
            r@ == a@.subrange(0, i as int),
        decreases a@.len() - i,
    {
        r.push(a[i]);
        i = i + 1;
    }
    let mut j: usize = 0;
    while j < b.len()
        invariant
            j <= b@.len(),
            i == a@.len(),
            r@ == a@ + b@.subrange(0, j as int),
        decreases b@.len() - j,
    {
        r.push(b[j]);
        j = j + 1;
    }
    assert(b@.subrange(0, j as int) == b@);
    r
}

} // verus!
