use vstd::prelude::*;
use vstd::slice::slice_to_vec;

use crate::encoding::{b64url_decode, b64url_encode, b64url_of, text_eq, bytes_eq};
use crate::error::RcliError;

verus! {

/// The keyed BLAKE3 hash of `msg` under the 32-byte `key`.
pub uninterp spec fn blake3_keyed(key: Seq<u8>, msg: Seq<u8>) -> Seq<u8>;

/// The Ed25519 signature of `msg` under the secret key with the 32-byte `seed`.
pub uninterp spec fn ed25519_signature(seed: Seq<u8>, msg: Seq<u8>) -> Seq<u8>;

/// The Ed25519 public key that belongs to the secret key with the 32-byte `seed`.
pub uninterp spec fn ed25519_public(seed: Seq<u8>) -> Seq<u8>;

/// Whether `sig` is a valid Ed25519 signature of `msg` under the public key `pk`.
pub uninterp spec fn ed25519_accepts(pk: Seq<u8>, msg: Seq<u8>, sig: Seq<u8>) -> bool;

/// Whether the 32 bytes `pk` encode an Ed25519 public key.
pub uninterp spec fn ed25519_key_valid(pk: Seq<u8>) -> bool;

/// Relies on `blake3::keyed_hash`: the 32-byte hash depends on the key and the message alone.
#[verifier::external_body]
fn blake3_keyed_hash(key: &[u8; 32], msg: &[u8]) -> (r: [u8; 32])
    ensures
        r@ == blake3_keyed(key@, msg@),
{
    *blake3::keyed_hash(key, msg).as_bytes()
}

/// Relies on ed25519-dalek's `SigningKey::from_bytes` and `Signer::sign`: Ed25519 signing is
/// deterministic, so the signature depends on the seed and the message alone, and the
/// public key of the seed accepts it.
#[verifier::external_body]
fn ed25519_sign(seed: &[u8; 32], msg: &[u8]) -> (r: [u8; 64])
    ensures
        r@ == ed25519_signature(seed@, msg@),
        ed25519_accepts(ed25519_public(seed@), msg@, r@),
{
    let key = ed25519_dalek::SigningKey::from_bytes(seed);
    ed25519_dalek::Signer::sign(&key, msg).to_bytes()
}

/// Relies on ed25519-dalek's `SigningKey::verifying_key` and `VerifyingKey::to_bytes`: the
/// compressed public key of a seed, which decodes again.
#[verifier::external_body]
fn ed25519_public_key(seed: &[u8; 32]) -> (r: [u8; 32])
    ensures
        r@ == ed25519_public(seed@),
        ed25519_key_valid(r@),
{
    ed25519_dalek::SigningKey::from_bytes(seed).verifying_key().to_bytes()
}

/// Relies on ed25519-dalek's `VerifyingKey::from_bytes`: whether the bytes decode to a
/// public key.
#[verifier::external_body]
fn ed25519_decodes(pk: &[u8; 32]) -> (r: bool)
    ensures
        r == ed25519_key_valid(pk@),
{
    ed25519_dalek::VerifyingKey::from_bytes(pk).is_ok()
}

/// Relies on ed25519-dalek's `Verifier::verify` for `VerifyingKey`: the outcome depends on
/// the key, the message and the signature alone (a key that does not decode accepts nothing).
#[verifier::external_body]
fn ed25519_verify(pk: &[u8; 32], msg: &[u8], sig: &[u8; 64]) -> (r: bool)
    ensures
        r == ed25519_accepts(pk@, msg@, sig@),
{
    match ed25519_dalek::VerifyingKey::from_bytes(pk) {
        Ok(key) => ed25519_dalek::Verifier::verify(
            &key,
            msg,
            &ed25519_dalek::Signature::from_bytes(sig),
        ).is_ok(),
        Err(_) => false,
    }
}

/// Relies on `rand::random`: 32 bytes from the thread-local cryptographically secure
/// generator. Nothing is known of their values.
#[verifier::external_body]
fn random_seed() -> (r: [u8; 32]) {
    rand::random::<[u8; 32]>()
}

/// The first 32 bytes of `b`.
fn first_32(b: &[u8]) -> (r: [u8; 32])
    requires
        b@.len() >= 32,
    ensures
        r@ == b@.subrange(0, 32),
{
    let mut r = [0u8; 32];
    let mut i: usize = 0;
    while i < 32
        invariant
            i <= 32,
            b@.len() >= 32,
            r@.len() == 32,
            forall|k: int| 0 <= k < i ==> r@[k] == b@[k],
        decreases 32 - i,
    {
        r.set(i, b[i]);
        i = i + 1;
    }
    assert(r@ == b@.subrange(0, 32));
    r
}

/// The first 64 bytes of `b`.
fn first_64(b: &[u8]) -> (r: [u8; 64])
    requires
        b@.len() >= 64,
    ensures
        r@ == b@.subrange(0, 64),
{
    let mut r = [0u8; 64];
    let mut i: usize = 0;
    while i < 64
        invariant
            i <= 64,
            b@.len() >= 64,
            r@.len() == 64,
            forall|k: int| 0 <= k < i ==> r@[k] == b@[k],
        decreases 64 - i,
    {
        r.set(i, b[i]);
        i = i + 1;
    }
    assert(r@ == b@.subrange(0, 64));
    r
}

/// Something that signs a message.
pub trait TextSign {
    /// The signature that `self` gives to `msg`.
    spec fn signature_for(&self, msg: Seq<u8>) -> Seq<u8>;

    /// The length of every signature that `self` makes.
    spec fn signature_len(&self) -> nat;

    /// Whether the verifying key that belongs to `self` accepts `sig` for `msg`.
    spec fn accepted_by_own_key(&self, msg: Seq<u8>, sig: Seq<u8>) -> bool;

    /// Signs the whole of `data`.
    fn sign(&self, data: &[u8]) -> (r: Vec<u8>)
        ensures
            r@ == self.signature_for(data@),
            r@.len() == self.signature_len(),
            self.accepted_by_own_key(data@, r@),
    ;
}

/// Something that checks a signature of a message.
pub trait TextVerify {
    /// Whether `self` accepts `sig` as a signature of `msg`.
    spec fn accepts(&self, msg: Seq<u8>, sig: Seq<u8>) -> bool;

    /// The only signature length that `self` can accept.
    spec fn accepted_len(&self) -> nat;

    /// Checks `sig` against the whole of `data`; a mismatch is `false`, never an error.
    fn verify(&self, data: &[u8], sig: &[u8]) -> (r: bool)
        ensures
            r == self.accepts(data@, sig@),
            sig@.len() != self.accepted_len() ==> !r,
    ;
}

/// Key material read from raw bytes.
pub trait KeyLoader: Sized {
    /// Whether `key` holds key bytes of the right shape.
    spec fn accepts_key(key: Seq<u8>) -> bool;

    /// The 32 key bytes that `self` holds.
    spec fn key_view(&self) -> Seq<u8>;

    /// Builds the key from the bytes of a key file.
    fn load(key: &[u8]) -> (r: Result<Self, RcliError>)
        ensures
            match r {
                Ok(k) => Self::accepts_key(key@) && k.key_view() == key@.subrange(0, 32),
                Err(e) => !Self::accepts_key(key@) && e == RcliError::KeyFormat,
            },
    ;
}

/// A keyed BLAKE3 MAC with a 32-byte symmetric key.
pub struct Blake3 {
    key: [u8; 32],
}

/// An Ed25519 signer, holding the 32-byte seed of its secret key.
pub struct Ed25519Signer {
    key: [u8; 32],
}

/// An Ed25519 verifier, holding the 32 bytes of a public key.
pub struct Ed25519Verifier {
    key: [u8; 32],
}

impl Blake3 {
    /// The key bytes.
    pub closed spec fn key_spec(&self) -> Seq<u8> {
        self.key@
    }

    pub fn new(key: [u8; 32]) -> (r: Self)
        ensures
            r.key_spec() == key@,
    {
        Blake3 { key }
    }

    /// Takes the first 32 bytes of `key` as the key; fewer than 32 bytes are refused.
    pub fn try_new(key: &[u8]) -> (r: Result<Self, RcliError>)
        ensures
            match r {
                Ok(k) => key@.len() >= 32 && k.key_spec() == key@.subrange(0, 32),
                Err(e) => key@.len() < 32 && e == RcliError::KeyFormat,
            },
    {
        if key.len() < 32 {
            return Err(RcliError::KeyFormat);
        }
        Ok(Blake3::new(first_32(key)))
    }
}

impl TextSign for Blake3 {
    open spec fn signature_for(&self, msg: Seq<u8>) -> Seq<u8> {
        blake3_keyed(self.key_spec(), msg)
    }

    open spec fn signature_len(&self) -> nat {
        32
    }

    open spec fn accepted_by_own_key(&self, msg: Seq<u8>, sig: Seq<u8>) -> bool {
        sig == blake3_keyed(self.key_spec(), msg)
    }

    fn sign(&self, data: &[u8]) -> (r: Vec<u8>) {
        let h = blake3_keyed_hash(&self.key, data);
        slice_to_vec(h.as_slice())
    }
}

impl TextVerify for Blake3 {
    open spec fn accepts(&self, msg: Seq<u8>, sig: Seq<u8>) -> bool {
        sig == blake3_keyed(self.key_spec(), msg)
    }

    open spec fn accepted_len(&self) -> nat {
        32
    }

    fn verify(&self, data: &[u8], sig: &[u8]) -> (r: bool) {
        let h = blake3_keyed_hash(&self.key, data);
        bytes_eq(h.as_slice(), sig)
    }
}

impl KeyLoader for Blake3 {
    open spec fn accepts_key(key: Seq<u8>) -> bool {
        key.len() >= 32
    }

    open spec fn key_view(&self) -> Seq<u8> {
        self.key_spec()
    }

    fn load(key: &[u8]) -> (r: Result<Self, RcliError>) {
        Blake3::try_new(key)
    }
}

impl Ed25519Signer {
    /// The seed bytes.
    pub closed spec fn key_spec(&self) -> Seq<u8> {
        self.key@
    }

    pub fn new(key: [u8; 32]) -> (r: Self)
        ensures
            r.key_spec() == key@,
    {
        Ed25519Signer { key }
    }

    /// Takes `key` as the seed; it must be exactly 32 bytes.
    pub fn try_new(key: &[u8]) -> (r: Result<Self, RcliError>)
        ensures
            match r {
                Ok(k) => key@.len() == 32 && k.key_spec() == key@,
                Err(e) => key@.len() != 32 && e == RcliError::KeyFormat,
            },
    {
        if key.len() != 32 {
            return Err(RcliError::KeyFormat);
        }
        let seed = first_32(key);
        assert(key@.subrange(0, 32) == key@);
        Ok(Ed25519Signer::new(seed))
    }
}

impl TextSign for Ed25519Signer {
    open spec fn signature_for(&self, msg: Seq<u8>) -> Seq<u8> {
        ed25519_signature(self.key_spec(), msg)
    }

    open spec fn signature_len(&self) -> nat {
        64
    }

    open spec fn accepted_by_own_key(&self, msg: Seq<u8>, sig: Seq<u8>) -> bool {
        sig.len() == 64 && ed25519_accepts(ed25519_public(self.key_spec()), msg, sig)
    }

    fn sign(&self, data: &[u8]) -> (r: Vec<u8>) {
        let s = ed25519_sign(&self.key, data);
        slice_to_vec(s.as_slice())
    }
}

impl KeyLoader for Ed25519Signer {
    open spec fn accepts_key(key: Seq<u8>) -> bool {
        key.len() == 32
    }

    open spec fn key_view(&self) -> Seq<u8> {
        self.key_spec()
    }

    fn load(key: &[u8]) -> (r: Result<Self, RcliError>) {
        let r = Ed25519Signer::try_new(key);
        proof {
            if r is Ok {
                assert(key@.subrange(0, 32) == key@);
            }
        }
        r
    }
}

impl Ed25519Verifier {
    /// The public key bytes.
    pub closed spec fn key_spec(&self) -> Seq<u8> {
        self.key@
    }

    pub fn new(key: [u8; 32]) -> (r: Self)
        ensures
            r.key_spec() == key@,
    {
        Ed25519Verifier { key }
    }

    /// Takes `key` as a public key; it must be exactly 32 bytes that decode to a key.
    pub fn try_new(key: &[u8]) -> (r: Result<Self, RcliError>)
        ensures
            match r {
                Ok(k) => key@.len() == 32 && ed25519_key_valid(key@) && k.key_spec() == key@,
                Err(e) => (key@.len() != 32 || !ed25519_key_valid(key@)) && e
                    == RcliError::KeyFormat,
            },
    {
        if key.len() != 32 {
            return Err(RcliError::KeyFormat);
        }
        let pk = first_32(key);
        assert(key@.subrange(0, 32) == key@);
        if !ed25519_decodes(&pk) {
            return Err(RcliError::KeyFormat);
        }
        Ok(Ed25519Verifier::new(pk))
    }
}

impl TextVerify for Ed25519Verifier {
    open spec fn accepts(&self, msg: Seq<u8>, sig: Seq<u8>) -> bool {
        sig.len() == 64 && ed25519_accepts(self.key_spec(), msg, sig)
    }

    open spec fn accepted_len(&self) -> nat {
        64
    }

    fn verify(&self, data: &[u8], sig: &[u8]) -> (r: bool) {
        if sig.len() != 64 {
            return false;
        }
        let s = first_64(sig);
        assert(sig@.subrange(0, 64) == sig@);
        ed25519_verify(&self.key, data, &s)
    }
}

impl KeyLoader for Ed25519Verifier {
    open spec fn accepts_key(key: Seq<u8>) -> bool {
        key.len() == 32 && ed25519_key_valid(key)
    }

    open spec fn key_view(&self) -> Seq<u8> {
        self.key_spec()
    }

    fn load(key: &[u8]) -> (r: Result<Self, RcliError>) {
        let r = Ed25519Verifier::try_new(key);
        proof {
            if r is Ok {
                assert(key@.subrange(0, 32) == key@);
            }
        }
        r
    }
}

/// Signing with a keyed hash verifies with the same key: a MAC is accepted for the
/// message it was made for.
pub proof fn lemma_mac_round_trip(k: Blake3, msg: Seq<u8>)
    ensures
        k.accepts(msg, k.signature_for(msg)),
{
}

/// A keyed-hash signature made with a key verifies with the same key, for every message:
/// what `process_text_sign` encodes is accepted by `process_text_verify`.
pub proof fn lemma_text_mac_round_trip(key: Seq<u8>, msg: Seq<u8>)
    requires
        key.len() >= 32,
    ensures
        signing_key_ok(TextSignFormat::Blake3, key),
        verifying_key_ok(TextSignFormat::Blake3, key),
        signature_accepted(
            TextSignFormat::Blake3,
            key,
            msg,
            signature_of(TextSignFormat::Blake3, key, msg),
        ),
{
}

/// An Ed25519 signature verifies under the public key of the seed that made it: a verifier
/// holding the public key of a signer's seed accepts what the signer's `sign` returns.
pub proof fn lemma_ed25519_round_trip(
    signer: Ed25519Signer,
    verifier: Ed25519Verifier,
    msg: Seq<u8>,
    sig: Seq<u8>,
)
    requires
        verifier.key_spec() == ed25519_public(signer.key_spec()),
        signer.accepted_by_own_key(msg, sig),
    ensures
        verifier.accepts(msg, sig),
{
}

/// The two signing schemes.
#[derive(Debug, Clone, Copy, PartialEq, Eq, Structural)]
pub enum TextSignFormat {
    /// Keyed BLAKE3 hash with a shared 32-byte key.
    Blake3,
    /// Ed25519 signature with a 32-byte seed and a 32-byte public key.
    Ed25519,
}

impl TextSignFormat {
    /// The name of the format on the command line.
    pub fn as_str(&self) -> (r: &'static str)
        ensures
            r@ == format_name(*self),
    {
        match self {
            TextSignFormat::Blake3 => "blake3",
            TextSignFormat::Ed25519 => "ed25519",
        }
    }
}

/// The name of a signing format.
pub open spec fn format_name(f: TextSignFormat) -> Seq<char> {
    match f {
        TextSignFormat::Blake3 => "blake3"@,
        TextSignFormat::Ed25519 => "ed25519"@,
    }
}

/// Reads a signing format from its name.
pub fn parse_format(s: &str) -> (r: Result<TextSignFormat, RcliError>)
    ensures
        match r {
            Ok(f) => format_name(f) == s@,
            Err(e) => e == RcliError::UnknownName && s@ != "blake3"@ && s@ != "ed25519"@,
        },
{
    if text_eq(s, "blake3") {
        Ok(TextSignFormat::Blake3)
    } else if text_eq(s, "ed25519") {
        Ok(TextSignFormat::Ed25519)
    } else {
        Err(RcliError::UnknownName)
    }
}

/// Whether `key` can be loaded as a signing key of the format.
pub open spec fn signing_key_ok(format: TextSignFormat, key: Seq<u8>) -> bool {
    match format {
        TextSignFormat::Blake3 => key.len() >= 32,
        TextSignFormat::Ed25519 => key.len() == 32,
    }
}

/// The signature of `msg` under the signing key loaded from `key`.
pub open spec fn signature_of(format: TextSignFormat, key: Seq<u8>, msg: Seq<u8>) -> Seq<u8> {
    match format {
        TextSignFormat::Blake3 => blake3_keyed(key.subrange(0, 32), msg),
        TextSignFormat::Ed25519 => ed25519_signature(key, msg),
    }
}

/// Whether `key` can be loaded as a verifying key of the format.
pub open spec fn verifying_key_ok(format: TextSignFormat, key: Seq<u8>) -> bool {
    match format {
        TextSignFormat::Blake3 => key.len() >= 32,
        TextSignFormat::Ed25519 => key.len() == 32 && ed25519_key_valid(key),
    }
}

/// Whether the verifying key loaded from `key` accepts `sig` for `msg`.
pub open spec fn signature_accepted(
    format: TextSignFormat,
    key: Seq<u8>,
    msg: Seq<u8>,
    sig: Seq<u8>,
) -> bool {
    match format {
        TextSignFormat::Blake3 => sig == blake3_keyed(key.subrange(0, 32), msg),
        TextSignFormat::Ed25519 => sig.len() == 64 && ed25519_accepts(key, msg, sig),
    }
}

/// Signs `data` with the key read from a key file, and gives the signature as URL-safe
/// base64 without padding.
pub fn process_text_sign(data: &[u8], key: &[u8], format: TextSignFormat) -> (r: Result<
    String,
    RcliError,
>)
    ensures
        match r {
            Ok(s) => signing_key_ok(format, key@) && s@ == b64url_of(
                signature_of(format, key@, data@),
            ) && (format == TextSignFormat::Ed25519 ==> signature_accepted(
                format,
                ed25519_public(key@),
                data@,
                signature_of(format, key@, data@),
            )),
            Err(e) => !signing_key_ok(format, key@) && e == RcliError::KeyFormat,
        },
{
    let signed = match format {
        TextSignFormat::Blake3 => {
            let signer = Blake3::load(key)?;
            signer.sign(data)
        },
        TextSignFormat::Ed25519 => {
            let signer = Ed25519Signer::load(key)?;
            proof {
                assert(key@.subrange(0, 32) == key@);
            }
            signer.sign(data)
        },
    };
    Ok(b64url_encode(signed.as_slice()))
}

/// Checks a URL-safe base64 signature of `data` with the key read from a key file.
/// The signature text is decoded before the key is loaded.
pub fn process_text_verify(data: &[u8], key: &[u8], sig: &str, format: TextSignFormat) -> (r:
    Result<bool, RcliError>)
    ensures
        match r {
            Ok(b) => verifying_key_ok(format, key@) && (exists|w: Seq<u8>| #[trigger]
                b64url_of(w) == sig@) && forall|w: Seq<u8>| #[trigger]
                b64url_of(w) == sig@ ==> b == signature_accepted(format, key@, data@, w),
            Err(e) => if forall|w: Seq<u8>| #[trigger] b64url_of(w) != sig@ {
                e == RcliError::Encoding
            } else {
                !verifying_key_ok(format, key@) && e == RcliError::KeyFormat
            },
        },
{
    let decoded = b64url_decode(sig);
    let sig_bytes = match decoded {
        Some(v) => v,
        None => {
            return Err(RcliError::Encoding);
        },
    };
    assert(b64url_of(sig_bytes@) == sig@);
    let valid = match format {
        TextSignFormat::Blake3 => {
            let verifier = match Blake3::load(key) {
                Ok(v) => v,
                Err(e) => {
                    return Err(e);
                },
            };
            verifier.verify(data, sig_bytes.as_slice())
        },
        TextSignFormat::Ed25519 => {
            let verifier = match Ed25519Verifier::load(key) {
                Ok(v) => v,
                Err(e) => {
                    return Err(e);
                },
            };
            proof {
                assert(key@.subrange(0, 32) == key@);
            }
            verifier.verify(data, sig_bytes.as_slice())
        },
    };
    Ok(valid)
}

/// The key material of the format made from the random `seed`: the symmetric key itself,
/// or the secret seed followed by its public key.
pub open spec fn keys_of_seed(format: TextSignFormat, seed: Seq<u8>) -> Seq<Seq<u8>> {
    match format {
        TextSignFormat::Blake3 => seq![seed],
        TextSignFormat::Ed25519 => seq![seed, ed25519_public(seed)],
    }
}

/// Makes the key material of the format from 32 random bytes.
pub fn generate_from_seed(format: TextSignFormat, seed: &[u8; 32]) -> (r: Vec<Vec<u8>>)
    ensures
        r@.len() == keys_of_seed(format, seed@).len(),
        forall|i: int| 0 <= i < r@.len() ==> #[trigger] r@[i]@ == keys_of_seed(format, seed@)[i],
        format == TextSignFormat::Ed25519 ==> ed25519_key_valid(ed25519_public(seed@))
            && ed25519_public(seed@).len() == 32,
{
    let mut keys: Vec<Vec<u8>> = Vec::new();
    keys.push(slice_to_vec(seed.as_slice()));
    match format {
        TextSignFormat::Blake3 => {},
        TextSignFormat::Ed25519 => {
            let pk = ed25519_public_key(seed);
            keys.push(slice_to_vec(pk.as_slice()));
        },
    }
    keys
}

/// Draws fresh key material for the format: one 32-byte key for the keyed hash, or
/// a 32-byte secret seed and its 32-byte public key, in that order, for Ed25519.
pub fn process_generate(format: TextSignFormat) -> (r: Vec<Vec<u8>>)
    ensures
        r@.len() == (if format == TextSignFormat::Blake3 { 1int } else { 2int }),
        r@[0]@.len() == 32,
        format == TextSignFormat::Ed25519 ==> r@[1]@ == ed25519_public(r@[0]@),
        format == TextSignFormat::Ed25519 ==> verifying_key_ok(format, r@[1]@),
{
    let seed = random_seed();
    generate_from_seed(format, &seed)
}

} // verus!
