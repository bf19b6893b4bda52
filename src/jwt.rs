use vstd::prelude::*;
use vstd::utf8::encode_utf8;

use crate::encoding::{is_b64url_char, b64url_decode, b64url_encode, b64url_of, concat_bytes, bytes_eq, text_eq};
use crate::error::RcliError;

verus! {

/// The SHA-256 digest of `b`.
pub uninterp spec fn sha256_of(b: Seq<u8>) -> Seq<u8>;

/// The SHA-512 digest of `b`.
pub uninterp spec fn sha512_of(b: Seq<u8>) -> Seq<u8>;

/// A lower-case hexadecimal digit.
pub open spec fn hex_char(d: nat) -> char {
    if d < 10 { digit_char(d) }
    else if d == 10 { 'a' }
    else if d == 11 { 'b' }
    else if d == 12 { 'c' }
    else if d == 13 { 'd' }
    else if d == 14 { 'e' }
    else { 'f' }
}

/// How one character stands inside a JSON string: '"' and '\\' behind a backslash, the
/// control characters with a short escape where there is one, the other control characters
/// as `\u00XX`, everything else as itself.
pub open spec fn json_escape_char(c: char) -> Seq<char> {
    let n = c as u32;
    if c == '"' { seq!['\\', '"'] }
    else if c == '\\' { seq!['\\', '\\'] }
    else if n == 8 { seq!['\\', 'b'] }
    else if n == 9 { seq!['\\', 't'] }
    else if n == 10 { seq!['\\', 'n'] }
    else if n == 12 { seq!['\\', 'f'] }
    else if n == 13 { seq!['\\', 'r'] }
    else if n < 32 {
        seq!['\\', 'u', '0', '0', hex_char((n / 16) as nat), hex_char((n % 16) as nat)]
    } else {
        seq![c]
    }
}

/// The characters of `s`, each escaped for a JSON string.
pub open spec fn json_escaped(s: Seq<char>) -> Seq<char>
    decreases s.len(),
{
    if s.len() == 0 {
        Seq::<char>::empty()
    } else {
        json_escaped(s.drop_last()) + json_escape_char(s.last())
    }
}

/// The JSON string literal that stands for `s`: its escaped characters between quotes.
pub open spec fn json_quoted(s: Seq<char>) -> Seq<char> {
    seq!['"'] + json_escaped(s) + seq!['"']
}

/// Relies on ring's `digest::digest` with `SHA256`: a 32-byte digest of the data alone.
#[verifier::external_body]
fn sha256(data: &[u8]) -> (r: Vec<u8>)
    ensures
        r@ == sha256_of(data@),
        r@.len() == 32,
{
    ring::digest::digest(&ring::digest::SHA256, data).as_ref().to_vec()
}

/// Relies on ring's `digest::digest` with `SHA512`: a 64-byte digest of the data alone.
#[verifier::external_body]
fn sha512(data: &[u8]) -> (r: Vec<u8>)
    ensures
        r@ == sha512_of(data@),
        r@.len() == 64,
{
    ring::digest::digest(&ring::digest::SHA512, data).as_ref().to_vec()
}

/// Relies on `serde_json::to_string` for a `str`: the text between quotes, escaped by the
/// table `ESCAPE` of serde_json's serializer. Serialising a `str` does not fail.
#[verifier::external_body]
fn json_quote(s: &str) -> (r: String)
    ensures
        r@ == json_quoted(s@),
{
    match serde_json::to_string(s) {
        Ok(q) => q,
        Err(_) => String::new(),
    }
}

/// The character of a decimal digit.
pub open spec fn digit_char(d: nat) -> char {
    if d == 0 { '0' }
    else if d == 1 { '1' }
    else if d == 2 { '2' }
    else if d == 3 { '3' }
    else if d == 4 { '4' }
    else if d == 5 { '5' }
    else if d == 6 { '6' }
    else if d == 7 { '7' }
    else if d == 8 { '8' }
    else { '9' }
}

/// The decimal text of `n`, without sign or leading zeros.
pub open spec fn decimal_text(n: nat) -> Seq<char>
    decreases n,
{
    if n < 10 {
        seq![digit_char(n)]
    } else {
        decimal_text(n / 10).push(digit_char(n % 10))
    }
}

/// Relies on `serde_json::to_string` for a `u64`: a JSON number is written in plain
/// decimal digits. Serialising an integer does not fail.
#[verifier::external_body]
fn json_number(n: u64) -> (r: String)
    ensures
        r@ == decimal_text(n as nat),
{
    match serde_json::to_string(&n) {
        Ok(q) => q,
        Err(_) => String::new(),
    }
}

/// The digest algorithm that signs a token.
#[derive(Debug, Clone, Copy, PartialEq, Eq, Structural)]
pub enum Algorithm {
    SHA256,
    SHA512,
}

/// The name of an algorithm in a token header.
pub open spec fn algorithm_name(a: Algorithm) -> Seq<char> {
    match a {
        Algorithm::SHA256 => "SHA256"@,
        Algorithm::SHA512 => "SHA512"@,
    }
}

impl Algorithm {
    /// The name of the algorithm in a token header.
    pub fn as_str(&self) -> (r: &'static str)
        ensures
            r@ == algorithm_name(*self),
    {
        match self {
            Algorithm::SHA256 => "SHA256",
            Algorithm::SHA512 => "SHA512",
        }
    }
}

/// Reads an algorithm from its name.
pub fn parse_algorithm(s: &str) -> (r: Result<Algorithm, RcliError>)
    ensures
        match r {
            Ok(a) => algorithm_name(a) == s@,
            Err(e) => e == RcliError::UnknownName && s@ != "SHA256"@ && s@ != "SHA512"@,
        },
{
    if text_eq(s, "SHA256") {
        Ok(Algorithm::SHA256)
    } else if text_eq(s, "SHA512") {
        Ok(Algorithm::SHA512)
    } else {
        Err(RcliError::UnknownName)
    }
}

/// The length of a digest of the algorithm.
pub open spec fn digest_len(alg: Algorithm) -> nat {
    match alg {
        Algorithm::SHA256 => 32,
        Algorithm::SHA512 => 64,
    }
}

/// The digest of `b` under the algorithm.
pub open spec fn digest_of(alg: Algorithm, b: Seq<u8>) -> Seq<u8> {
    match alg {
        Algorithm::SHA256 => sha256_of(b),
        Algorithm::SHA512 => sha512_of(b),
    }
}

/// The header of a token.
pub struct JWTHeader {
    pub alg: Algorithm,
    pub typ: String,
}

/// The claims of a token. A time of 0 disables the check that it takes part in.
pub struct JWTPayload {
    /// Subject: whom the token is for.
    pub sub: String,
    /// Issuer.
    pub iss: String,
    /// Expiry time, in seconds since the Unix epoch.
    pub exp: u64,
    /// Not-before time, in seconds since the Unix epoch.
    pub nbf: u64,
    /// Issued-at time, in seconds since the Unix epoch.
    pub iat: u64,
    /// Unique identifier of the token.
    pub jti: Option<String>,
}

/// The JSON text of a header: `{"alg":..,"typ":..}`.
pub open spec fn header_json(h: JWTHeader) -> Seq<char> {
    "{\"alg\":"@ + json_quoted(algorithm_name(h.alg)) + ",\"typ\":"@ + json_quoted(h.typ@) + "}"@
}

/// The JSON value of an optional text: a string literal, or `null`.
pub open spec fn json_optional(o: Option<String>) -> Seq<char> {
    match o {
        Some(s) => json_quoted(s@),
        None => "null"@,
    }
}

/// The JSON text of the claims, with the keys in sorted order.
pub open spec fn payload_json(p: JWTPayload) -> Seq<char> {
    "{\"exp\":"@ + decimal_text(p.exp as nat) + ",\"iat\":"@ + decimal_text(p.iat as nat)
        + ",\"iss\":"@ + json_quoted(p.iss@) + ",\"jti\":"@ + json_optional(p.jti)
        + ",\"nbf\":"@ + decimal_text(p.nbf as nat) + ",\"sub\":"@ + json_quoted(p.sub@) + "}"@
}

/// The digest that signs the segments `h64` and `p64` under `secret`: the digest of the
/// bytes of `h64 + "." + p64` followed by the bytes of the secret.
pub open spec fn token_digest(alg: Algorithm, h64: Seq<char>, p64: Seq<char>, secret: Seq<char>) -> Seq<u8> {
    digest_of(alg, encode_utf8(h64 + "."@ + p64) + encode_utf8(secret))
}

/// The three segments of the token issued for a header and claims under `secret`.
pub open spec fn token_segments(h: JWTHeader, p: JWTPayload, secret: Seq<char>) -> Seq<Seq<char>> {
    let h64 = b64url_of(encode_utf8(header_json(h)));
    let p64 = b64url_of(encode_utf8(payload_json(p)));
    seq![h64, p64, b64url_of(token_digest(h.alg, h64, p64, secret))]
}

/// The token issued for a header and claims under `secret`: its segments joined by '.'.
pub open spec fn token_of(h: JWTHeader, p: JWTPayload, secret: Seq<char>) -> Seq<char> {
    let segs = token_segments(h, p, secret);
    segs[0] + "."@ + segs[1] + "."@ + segs[2]
}

fn header_text(h: &JWTHeader) -> (r: String)
    ensures
        r@ == header_json(*h),
{
    let mut s = String::from_str("{\"alg\":");
    let a = json_quote(h.alg.as_str());
    s.append(a.as_str());
    s.append(",\"typ\":");
    let t = json_quote(h.typ.as_str());
    s.append(t.as_str());
    s.append("}");
    s
}

fn payload_text(p: &JWTPayload) -> (r: String)
    ensures
        r@ == payload_json(*p),
{
    let mut s = String::from_str("{\"exp\":");
    let exp = json_number(p.exp);
    s.append(exp.as_str());
    s.append(",\"iat\":");
    let iat = json_number(p.iat);
    s.append(iat.as_str());
    s.append(",\"iss\":");
    let iss = json_quote(p.iss.as_str());
    s.append(iss.as_str());
    s.append(",\"jti\":");
    match &p.jti {
        Some(j) => {
            let q = json_quote(j.as_str());
            s.append(q.as_str());
        },
        None => {
            s.append("null");
        },
    }
    s.append(",\"nbf\":");
    let nbf = json_number(p.nbf);
    s.append(nbf.as_str());
    s.append(",\"sub\":");
    let sub = json_quote(p.sub.as_str());
    s.append(sub.as_str());
    s.append("}");
    s
}

/// Computes the digest that signs the segments `h64` and `p64` under `secret`.
fn sign_segments(alg: Algorithm, h64: &str, p64: &str, secret: &str) -> (r: Vec<u8>)
    ensures
        r@ == token_digest(alg, h64@, p64@, secret@),
        r@.len() == digest_len(alg),
{
    let mut input = String::from_str(h64);
    input.append(".");
    input.append(p64);
    let bytes = concat_bytes(input.as_str().as_bytes(), secret.as_bytes());
    match alg {
        Algorithm::SHA256 => sha256(bytes.as_slice()),
        Algorithm::SHA512 => sha512(bytes.as_slice()),
    }
}

/// Issues a token: the header and the claims as JSON, each in URL-safe base64 without
/// padding, then the digest of the two segments and the secret, joined by '.'.
pub fn process_gen_jwt(header: &JWTHeader, payload: &JWTPayload, secret: &str) -> (r: String)
    ensures
        r@ == token_of(*header, *payload, secret@),
        split_dots(r@) == token_segments(*header, *payload, secret@),
        forall|i: int| 0 <= i < r@.len() ==> is_b64url_char(#[trigger] r@[i]) || r@[i] == '.',
        token_digest(
            header.alg,
            token_segments(*header, *payload, secret@)[0],
            token_segments(*header, *payload, secret@)[1],
            secret@,
        ).len() == digest_len(header.alg),
{
    let h = header_text(header);
    let p = payload_text(payload);
    let h64 = b64url_encode(h.as_str().as_bytes());
    let p64 = b64url_encode(p.as_str().as_bytes());
    let digest = sign_segments(header.alg, h64.as_str(), p64.as_str(), secret);
    let s64 = b64url_encode(digest.as_slice());
    let mut token = h64;
    token.append(".");
    token.append(p64.as_str());
    token.append(".");
    token.append(s64.as_str());
    proof {
        lemma_split_no_dot(h64@);
        lemma_split_append(h64@, p64@);
        lemma_split_append(h64@ + "."@ + p64@, s64@);
        assert(split_dots(token@) =~= seq![h64@, p64@, s64@]);
        reveal_strlit(".");
        assert(token@ == h64@ + "."@ + p64@ + "."@ + s64@);
        assert forall|i: int| 0 <= i < token@.len() implies is_b64url_char(#[trigger] token@[i])
            || token@[i] == '.' by {
            let a = h64@.len() as int;
            let b = a + 1 + p64@.len();
            if i < a {
                assert(token@[i] == h64@[i]);
            } else if i == a {
            } else if i < b {
                assert(token@[i] == p64@[i - a - 1]);
            } else if i == b {
            } else {
                assert(token@[i] == s64@[i - b - 1]);
            }
        }
    }
    token
}

/// The pieces of `s` between its '.' characters, in order: one more than there are dots.
pub open spec fn split_dots(s: Seq<char>) -> Seq<Seq<char>>
    decreases s.len(),
{
    if s.len() == 0 {
        seq![Seq::<char>::empty()]
    } else {
        let init = split_dots(s.drop_last());
        if s.last() == '.' {
            init.push(Seq::<char>::empty())
        } else {
            init.update(init.len() - 1, init.last().push(s.last()))
        }
    }
}

proof fn lemma_split_dots_nonempty(s: Seq<char>)
    ensures
        split_dots(s).len() >= 1,
    decreases s.len(),
{
    if s.len() > 0 {
        lemma_split_dots_nonempty(s.drop_last());
    }
}

/// A text without '.' is a single piece.
proof fn lemma_split_no_dot(y: Seq<char>)
    requires
        forall|i: int| 0 <= i < y.len() ==> #[trigger] y[i] != '.',
    ensures
        split_dots(y) == seq![y],
    decreases y.len(),
{
    if y.len() > 0 {
        let z = y.drop_last();
        lemma_split_no_dot(z);
        assert(z.push(y.last()) == y);
        assert(split_dots(y) =~= seq![y]);
    } else {
        assert(y == Seq::<char>::empty());
    }
}

/// Appending '.' and a text without '.' adds that text as one more piece.
proof fn lemma_split_append(x: Seq<char>, y: Seq<char>)
    requires
        forall|i: int| 0 <= i < y.len() ==> #[trigger] y[i] != '.',
    ensures
        split_dots(x + "."@ + y) == split_dots(x).push(y),
    decreases y.len(),
{
    reveal_strlit(".");
    let t = x + "."@ + y;
    if y.len() == 0 {
        assert(t.drop_last() == x);
        assert(y == Seq::<char>::empty());
    } else {
        let z = y.drop_last();
        lemma_split_append(x, z);
        lemma_split_dots_nonempty(x + "."@ + z);
        assert(t.drop_last() == x + "."@ + z);
        assert(z.push(y.last()) == y);
        assert(split_dots(t) =~= split_dots(x).push(y));
    }
}

/// Splits `s` at every '.'.
fn split_on_dot(s: &str) -> (r: Vec<String>)
    ensures
        r@.len() == split_dots(s@).len(),
        forall|k: int| 0 <= k < r@.len() ==> #[trigger] r@[k]@ == split_dots(s@)[k],
{
    let n = s.unicode_len();
    let mut parts: Vec<String> = Vec::new();
    let mut start: usize = 0;
    let mut i: usize = 0;
    proof {
        assert(s@.subrange(0, 0) == Seq::<char>::empty());
    }
    while i < n
        invariant
            n == s@.len(),
            start <= i <= n,
            parts@.len() + 1 == split_dots(s@.subrange(0, i as int)).len(),
            forall|k: int|
                0 <= k < parts@.len() ==> #[trigger] parts@[k]@ == split_dots(
                    s@.subrange(0, i as int),
                )[k],
            split_dots(s@.subrange(0, i as int)).last() == s@.subrange(start as int, i as int),
        decreases n - i,
    {
        let c = s.get_char(i);
        let ghost prev = s@.subrange(0, i as int);
        let ghost next = s@.subrange(0, i + 1);
        proof {
            assert(next.drop_last() == prev);
            assert(next.last() == c);
            lemma_split_dots_nonempty(prev);
        }
        if c == '.' {
            let piece = s.substring_char(start, i);
            parts.push(String::from_str(piece));
            start = i + 1;
            proof {
                assert(s@.subrange(start as int, i + 1) == Seq::<char>::empty());
            }
        } else {
            proof {
                assert(s@.subrange(start as int, i + 1) == s@.subrange(start as int, i as int).push(
                    c,
                ));
            }
        }
        i = i + 1;
    }
    let last = s.substring_char(start, n);
    parts.push(String::from_str(last));
    proof {
        assert(s@.subrange(0, n as int) == s@);
        lemma_split_dots_nonempty(s@);
    }
    parts
}

/// Whether `text` is the URL-safe base64 text of exactly the bytes `v`.
pub open spec fn decodes_to(text: Seq<char>, v: Seq<u8>) -> bool {
    forall|w: Seq<u8>| #[trigger] b64url_of(w) == text <==> w == v
}

/// Whether `text` is the URL-safe base64 text of some bytes.
pub open spec fn decodable(text: Seq<char>) -> bool {
    exists|w: Seq<u8>| #[trigger] b64url_of(w) == text
}

/// Whether `parts` is what `split_token` gives for a token with the three segments `segs`.
pub open spec fn splits_into(segs: Seq<Seq<char>>, parts: TokenParts) -> bool {
    &&& segs.len() == 3
    &&& parts.header_b64@ == segs[0]
    &&& parts.payload_b64@ == segs[1]
    &&& decodes_to(segs[0], parts.header@)
    &&& decodes_to(segs[1], parts.payload@)
    &&& decodes_to(segs[2], parts.signature@)
}

/// A token taken apart: its first two segments as they stand, and the bytes that each of
/// its three segments encodes.
pub struct TokenParts {
    pub header_b64: String,
    pub payload_b64: String,
    /// The JSON text of the header.
    pub header: Vec<u8>,
    /// The JSON text of the claims.
    pub payload: Vec<u8>,
    /// The digest that signs the token.
    pub signature: Vec<u8>,
}

/// Splits a token into its three segments and decodes each from URL-safe base64.
/// Anything but exactly two '.' is a format error; a segment that does not decode is an
/// encoding error.
pub fn split_token(token: &str) -> (r: Result<TokenParts, RcliError>)
    ensures
        split_dots(token@).len() != 3 ==> r == Err::<TokenParts, RcliError>(RcliError::TokenFormat),
        split_dots(token@).len() == 3 ==> match r {
            Ok(parts) => splits_into(split_dots(token@), parts),
            Err(e) => e == RcliError::Encoding && !(decodable(split_dots(token@)[0]) && decodable(
                split_dots(token@)[1],
            ) && decodable(split_dots(token@)[2])),
        },
{
    let segs = split_on_dot(token);
    if segs.len() != 3 {
        return Err(RcliError::TokenFormat);
    }
    let signature = match b64url_decode(segs[2].as_str()) {
        Some(v) => v,
        None => {
            return Err(RcliError::Encoding);
        },
    };
    let header = match b64url_decode(segs[0].as_str()) {
        Some(v) => v,
        None => {
            return Err(RcliError::Encoding);
        },
    };
    let payload = match b64url_decode(segs[1].as_str()) {
        Some(v) => v,
        None => {
            return Err(RcliError::Encoding);
        },
    };
    Ok(
        TokenParts {
            header_b64: segs[0].clone(),
            payload_b64: segs[1].clone(),
            header,
            payload,
            signature,
        },
    )
}

/// What the time checks decide for the claims at time `now`: issued in the future,
/// expired, or not valid yet, in that order; a time of 0 takes no part.
pub open spec fn claims_outcome(p: JWTPayload, now: u64) -> Result<(), RcliError> {
    if p.iat > 0 && p.iat > now {
        Err(RcliError::InvalidIat)
    } else if p.exp > 0 && p.exp < now {
        Err(RcliError::InvalidExp)
    } else if p.nbf > 0 && p.nbf > now {
        Err(RcliError::InvalidNbf)
    } else {
        Ok(())
    }
}

/// Checks the time claims at time `now`.
pub fn check_claims(payload: &JWTPayload, now: u64) -> (r: Result<(), RcliError>)
    ensures
        r == claims_outcome(*payload, now),
{
    if payload.iat > 0 && payload.iat > now {
        return Err(RcliError::InvalidIat);
    }
    if payload.exp > 0 && payload.exp < now {
        return Err(RcliError::InvalidExp);
    }
    if payload.nbf > 0 && payload.nbf > now {
        return Err(RcliError::InvalidNbf);
    }
    Ok(())
}

/// What validation decides: the time checks first, then whether the signature is the
/// digest of the first two segments and the secret.
pub open spec fn validation_outcome(
    parts: TokenParts,
    header: JWTHeader,
    payload: JWTPayload,
    secret: Seq<char>,
    now: u64,
) -> Result<bool, RcliError> {
    match claims_outcome(payload, now) {
        Err(e) => Err(e),
        Ok(_) => Ok(
            parts.signature@ == token_digest(
                header.alg,
                parts.header_b64@,
                parts.payload_b64@,
                secret,
            ),
        ),
    }
}

/// Validates a token that `split_token` took apart, given the header and claims that its
/// first two segments hold, against `secret` at time `now`.
pub fn validate_token(
    parts: &TokenParts,
    header: &JWTHeader,
    payload: &JWTPayload,
    secret: &str,
    now: u64,
) -> (r: Result<bool, RcliError>)
    ensures
        r == validation_outcome(*parts, *header, *payload, secret@, now),
{
    check_claims(payload, now)?;
    let expected = sign_segments(
        header.alg,
        parts.header_b64.as_str(),
        parts.payload_b64.as_str(),
        secret,
    );
    Ok(bytes_eq(expected.as_slice(), parts.signature.as_slice()))
}

/// Issuing and then validating with the same secret succeeds: a token that
/// `process_gen_jwt` issued for `h` and `p` under `secret`, taken apart by `split_token`
/// and read back as the same header and claims, validates to `true` at any time `now`
/// at which the claims pass.
pub proof fn lemma_token_round_trip(
    h: JWTHeader,
    p: JWTPayload,
    secret: Seq<char>,
    token: Seq<char>,
    parts: TokenParts,
    now: u64,
)
    requires
        split_dots(token) == token_segments(h, p, secret),
        splits_into(split_dots(token), parts),
        claims_outcome(p, now) is Ok,
    ensures
        validation_outcome(parts, h, p, secret, now) == Ok::<bool, RcliError>(true),
{
    let segs = token_segments(h, p, secret);
    let d = token_digest(h.alg, segs[0], segs[1], secret);
    assert(b64url_of(d) == segs[2]);
    assert(d == parts.signature@);
}

/// A token whose third segment is not the one issued for its first two segments under
/// `secret` (for instance, one with a character of its third segment changed) does not
/// validate: where it decodes and the claims pass, the outcome is `false`.
pub proof fn lemma_tampered_signature_refused(
    token: Seq<char>,
    parts: TokenParts,
    h: JWTHeader,
    p: JWTPayload,
    secret: Seq<char>,
    now: u64,
)
    requires
        splits_into(split_dots(token), parts),
        split_dots(token)[2] != b64url_of(
            token_digest(h.alg, split_dots(token)[0], split_dots(token)[1], secret),
        ),
    ensures
        validation_outcome(parts, h, p, secret, now) != Ok::<bool, RcliError>(true),
        claims_outcome(p, now) is Ok ==> validation_outcome(parts, h, p, secret, now) == Ok::<
            bool,
            RcliError,
        >(false),
{
    let segs = split_dots(token);
    if parts.signature@ == token_digest(h.alg, segs[0], segs[1], secret) {
        assert(b64url_of(parts.signature@) == segs[2]);
    }
}

/// A token whose expiry lies before `now`, with no issued-at or not-before time, is
/// refused as expired, whatever its signature.
pub proof fn lemma_expired_token_refused(
    parts: TokenParts,
    header: JWTHeader,
    payload: JWTPayload,
    secret: Seq<char>,
    now: u64,
)
    requires
        payload.iat == 0,
        payload.nbf == 0,
        payload.exp > 0,
        payload.exp < now,
    ensures
        validation_outcome(parts, header, payload, secret, now) == Err::<bool, RcliError>(
            RcliError::InvalidExp,
        ),
{
}

/// With issued-at, expiry and not-before all 0, no time check takes part: at every time
/// the outcome is whether the signature matches.
pub proof fn lemma_zero_times_disable_checks(
    parts: TokenParts,
    header: JWTHeader,
    payload: JWTPayload,
    secret: Seq<char>,
    now1: u64,
    now2: u64,
)
    requires
        payload.iat == 0,
        payload.exp == 0,
        payload.nbf == 0,
    ensures
        validation_outcome(parts, header, payload, secret, now1) is Ok,
        validation_outcome(parts, header, payload, secret, now1) == validation_outcome(
            parts,
            header,
            payload,
            secret,
            now2,
        ),
{
}

} // verus!
