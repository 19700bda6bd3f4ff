use vstd::prelude::*;
use vstd::string::*;
use core::str::FromStr;
use ed25519_dalek::{Signer, Verifier};
use crate::encoding::{hex_digit, hex_text, is_white_space, lemma_hex_digit_injective, trim_whitespace, trimmed};
use crate::error::TextError;
use crate::format::{text_eq, TextSignFormat};
use crate::keys::bytes_32;
use crate::gen_pass::{draws_fit, generate_password, is_password, password_of, GenPassOpts};

verus! {

/// The 32 bytes of BLAKE3 in keyed mode, for a key and a message.
pub uninterp spec fn blake3_keyed(key: Seq<u8>, msg: Seq<u8>) -> Seq<u8>;

/// The 64-byte Ed25519 signature of a message under the key from a 32-byte seed.
pub uninterp spec fn ed25519_signature(seed: Seq<u8>, msg: Seq<u8>) -> Seq<u8>;

/// The 32-byte Ed25519 public key that belongs to a 32-byte seed.
pub uninterp spec fn ed25519_public(seed: Seq<u8>) -> Seq<u8>;

/// Whether 32 bytes decompress to a point of the curve, as a public key must.
pub uninterp spec fn ed25519_point(pk: Seq<u8>) -> bool;

/// Whether Ed25519 verification accepts a signature of a message under a public key.
pub uninterp spec fn ed25519_accepts(pk: Seq<u8>, msg: Seq<u8>, sig: Seq<u8>) -> bool;

/// Relies on `blake3::keyed_hash`, displayed as `Hash` does: lowercase hex of
/// its 32 bytes, so 64 characters.
#[verifier::external_body]
fn keyed_hash_hex(key: &[u8; 32], msg: &[u8]) -> (r: String)
    ensures
        r@ == hex_text(blake3_keyed(key@, msg@), false),
        r@.len() == 64,
{
    blake3::keyed_hash(key, msg).to_string()
}

/// Relies on `SigningKey::sign` of ed25519-dalek: a deterministic signature
/// that verification accepts under the verifying key of the same signing key.
#[verifier::external_body]
fn ed25519_sign(seed: &[u8; 32], msg: &[u8]) -> (r: [u8; 64])
    ensures
        r@ == ed25519_signature(seed@, msg@),
        ed25519_accepts(ed25519_public(seed@), msg@, r@),
{
    ed25519_dalek::SigningKey::from_bytes(seed).sign(msg).to_bytes()
}

/// Relies on `SigningKey::verifying_key` of ed25519-dalek: the public key of a
/// seed, a point of the curve.
#[verifier::external_body]
fn ed25519_public_key(seed: &[u8; 32]) -> (r: [u8; 32])
    ensures
        r@ == ed25519_public(seed@),
        ed25519_point(r@),
{
    ed25519_dalek::SigningKey::from_bytes(seed).verifying_key().to_bytes()
}

/// Relies on `VerifyingKey::from_bytes` of ed25519-dalek: it succeeds when
/// the bytes decompress to a point.
#[verifier::external_body]
fn ed25519_valid_point(pk: &[u8; 32]) -> (r: bool)
    ensures
        r == ed25519_point(pk@),
{
    ed25519_dalek::VerifyingKey::from_bytes(pk).is_ok()
}

/// Relies on `VerifyingKey::verify` of ed25519-dalek.
#[verifier::external_body]
fn ed25519_check(pk: &[u8; 32], msg: &[u8], sig: &[u8; 64]) -> (r: bool)
    ensures
        r == ed25519_accepts(pk@, msg@, sig@),
{
    match ed25519_dalek::VerifyingKey::from_bytes(pk) {
        Ok(key) => key.verify(msg, &ed25519_dalek::Signature::from_bytes(sig)).is_ok(),
        Err(_) => false,
    }
}

/// Relies on the `Display` of ed25519's `Signature`: uppercase hex of its 64 bytes.
#[verifier::external_body]
fn signature_hex(sig: &[u8; 64]) -> (r: String)
    ensures
        r@ == hex_text(sig@, true),
{
    ed25519_dalek::Signature::from_bytes(sig).to_string()
}

/// Relies on the `FromStr` of ed25519's `Signature`: 128 hex digits, all
/// upper or all lower case.
#[verifier::external_body]
fn parse_signature_hex(s: &str) -> (r: Option<[u8; 64]>)
    ensures
        match r {
            Some(b) => signature_from_hex(s@) == Some(b@),
            None => signature_from_hex(s@) is None,
        },
{
    match ed25519_dalek::Signature::from_str(s) {
        Ok(sig) => Some(sig.to_bytes()),
        Err(_) => None,
    }
}

/// Whether a text is the hex form of 64 bytes, in one case throughout.
pub open spec fn is_signature_hex(s: Seq<char>, b: Seq<u8>) -> bool {
    b.len() == 64 && (s == hex_text(b, true) || s == hex_text(b, false))
}

/// The 64 bytes that a signature text spells in hex, if it spells any.
pub open spec fn signature_from_hex(s: Seq<char>) -> Option<Seq<u8>> {
    if exists|b: Seq<u8>| #[trigger] is_signature_hex(s, b) {
        Some(choose|b: Seq<u8>| #[trigger] is_signature_hex(s, b))
    } else {
        None
    }
}

pub proof fn lemma_hex_text_injective(b1: Seq<u8>, u1: bool, b2: Seq<u8>, u2: bool)
    requires
        hex_text(b1, u1) == hex_text(b2, u2),
    ensures
        b1 == b2,
{
    assert(hex_text(b1, u1).len() == 2 * b1.len());
    assert(hex_text(b2, u2).len() == 2 * b2.len());
    assert forall|i: int| 0 <= i < b1.len() implies b1[i] == b2[i] by {
        let e = 2 * i;
        let o = 2 * i + 1;
        assert(e % 2 == 0 && e / 2 == i);
        assert(o % 2 == 1 && o / 2 == i);
        assert(hex_text(b1, u1)[e] == hex_text(b2, u2)[e]);
        assert(hex_text(b1, u1)[o] == hex_text(b2, u2)[o]);
        assert(hex_text(b1, u1)[e] == hex_digit(b1[i] as int / 16, u1));
        assert(hex_text(b2, u2)[e] == hex_digit(b2[i] as int / 16, u2));
        assert(hex_text(b1, u1)[o] == hex_digit(b1[i] as int % 16, u1));
        assert(hex_text(b2, u2)[o] == hex_digit(b2[i] as int % 16, u2));
        lemma_hex_digit_injective(b1[i] as int / 16, u1, b2[i] as int / 16, u2);
        lemma_hex_digit_injective(b1[i] as int % 16, u1, b2[i] as int % 16, u2);
    }
    assert(b1 =~= b2);
}

pub proof fn lemma_signature_hex_round_trip(b: Seq<u8>, upper: bool)
    requires
        b.len() == 64,
    ensures
        signature_from_hex(hex_text(b, upper)) == Some(b),
{
    let s = hex_text(b, upper);
    assert(is_signature_hex(s, b));
    let c = choose|c: Seq<u8>| #[trigger] is_signature_hex(s, c);
    if s == hex_text(c, true) {
        lemma_hex_text_injective(b, upper, c, true);
    } else {
        lemma_hex_text_injective(b, upper, c, false);
    }
}

proof fn lemma_hex_digit_not_white(v: int, upper: bool)
    requires
        0 <= v < 16,
    ensures
        !is_white_space(hex_digit(v, upper)),
{
}

/// Trimming keeps a text whose first and last characters are not white space.
pub proof fn lemma_trimmed_unchanged(s: Seq<char>)
    requires
        s.len() > 0 ==> !is_white_space(s[0]) && !is_white_space(s[s.len() - 1]),
    ensures
        trimmed(s) == s,
{
    if s.len() > 0 {
        let i = choose|i: int|
            0 <= i < s.len() && !is_white_space(s[i]) && forall|k: int|
                0 <= k < i ==> is_white_space(#[trigger] s[k]);
        if i > 0 {
            assert(is_white_space(s[0]));
        }
        let j = choose|j: int|
            0 <= j < s.len() && !is_white_space(s[j]) && forall|k: int|
                j < k < s.len() ==> is_white_space(#[trigger] s[k]);
        if j < s.len() - 1 {
            assert(is_white_space(s[s.len() - 1]));
        }
        assert(s.subrange(0, s.len() as int) =~= s);
    } else {
        assert(s =~= Seq::<char>::empty());
    }
}

/// Hex text has no white space at its ends, so trimming keeps it.
pub proof fn lemma_trimmed_hex(b: Seq<u8>, upper: bool)
    ensures
        trimmed(hex_text(b, upper)) == hex_text(b, upper),
{
    let s = hex_text(b, upper);
    assert(s.len() == 2 * b.len());
    if s.len() > 0 {
        let last = s.len() - 1;
        assert(last % 2 == 1 && last / 2 == b.len() - 1);
        assert(s[0] == hex_digit(b[0] as int / 16, upper));
        assert(s[last] == hex_digit(b[last / 2] as int % 16, upper));
        lemma_hex_digit_not_white(b[0] as int / 16, upper);
        lemma_hex_digit_not_white(b[last / 2] as int % 16, upper);
    }
    lemma_trimmed_unchanged(s);
}

/// Produces a signature text of a message.
pub trait TextSign {
    /// Whether `sig` is the signature text of `msg` under this key.
    spec fn signs(&self, msg: Seq<u8>, sig: Seq<char>) -> bool;

    fn sign(&self, msg: &[u8]) -> (r: String)
        ensures
            self.signs(msg@, r@),
    ;
}

/// Checks a signature text against a message.
pub trait TextVerify {
    /// What verification of `sig` against `msg` under this key gives.
    spec fn verdict(&self, msg: Seq<u8>, sig: Seq<char>) -> Result<bool, TextError>;

    fn verify(&self, msg: &[u8], sig: &str) -> (r: Result<bool, TextError>)
        ensures
            r == self.verdict(msg@, sig@),
    ;
}

/// Builds a key object from raw key bytes.
pub trait KeyLoader: Sized {
    /// Whether `r` is what loading the bytes `key` gives.
    spec fn loads(key: Seq<u8>, r: Result<Self, TextError>) -> bool;

    fn load(key: &[u8]) -> (r: Result<Self, TextError>)
        ensures
            Self::loads(key@, r),
    ;
}

/// A BLAKE3 key: signing is the keyed hash, shown as lowercase hex.
pub struct Blake3 {
    pub key: [u8; 32],
}

/// An Ed25519 signing key, held as its 32-byte seed.
pub struct ED25519Signer {
    pub seed: [u8; 32],
}

/// An Ed25519 verifying key, held as its 32 bytes.
pub struct ED25519Verifier {
    pub key: [u8; 32],
}

/// The lowercase hex signature of a message under a BLAKE3 key.
pub open spec fn blake3_signature(key: Seq<u8>, msg: Seq<u8>) -> Seq<char> {
    hex_text(blake3_keyed(key, msg), false)
}

/// What Ed25519 verification gives for a signature text under a public key:
/// an error where the trimmed text is not 64 bytes in hex, else whether the
/// signature is accepted.
pub open spec fn ed25519_verdict(pk: Seq<u8>, msg: Seq<u8>, sig: Seq<char>) -> Result<bool, TextError> {
    match signature_from_hex(trimmed(sig)) {
        Some(b) => Ok(ed25519_accepts(pk, msg, b)),
        None => Err(TextError::MalformedSignature),
    }
}

impl Blake3 {
    pub fn new(key: [u8; 32]) -> (r: Self)
        ensures
            r.key == key,
    {
        Blake3 { key }
    }

    /// Takes exactly 32 bytes of key material.
    pub fn try_new(key: &[u8]) -> (r: Result<Self, TextError>)
        ensures
            Self::loads(key@, r),
    {
        let key = bytes_32(key)?;
        Ok(Blake3::new(key))
    }
}

impl TextSign for Blake3 {
    open spec fn signs(&self, msg: Seq<u8>, sig: Seq<char>) -> bool {
        sig == blake3_signature(self.key@, msg) && sig.len() == 64
    }

    fn sign(&self, msg: &[u8]) -> (r: String) {
        keyed_hash_hex(&self.key, msg)
    }
}

impl TextVerify for Blake3 {
    open spec fn verdict(&self, msg: Seq<u8>, sig: Seq<char>) -> Result<bool, TextError> {
        Ok(trimmed(sig) == blake3_signature(self.key@, msg))
    }

    fn verify(&self, msg: &[u8], sig: &str) -> (r: Result<bool, TextError>) {
        let expected = keyed_hash_hex(&self.key, msg);
        Ok(text_eq(trim_whitespace(sig), expected.as_str()))
    }
}

impl KeyLoader for Blake3 {
    open spec fn loads(key: Seq<u8>, r: Result<Self, TextError>) -> bool {
        match r {
            Ok(k) => key.len() == 32 && k.key@ == key,
            Err(e) => key.len() != 32 && e == (TextError::KeyFormat {
                expected: 32,
                actual: key.len() as usize,
            }),
        }
    }

    fn load(key: &[u8]) -> (r: Result<Self, TextError>) {
        Self::try_new(key)
    }
}

impl ED25519Signer {
    pub fn new(seed: [u8; 32]) -> (r: Self)
        ensures
            r.seed == seed,
    {
        ED25519Signer { seed }
    }

    /// Takes exactly 32 bytes of seed.
    pub fn try_new(key: &[u8]) -> (r: Result<Self, TextError>)
        ensures
            Self::loads(key@, r),
    {
        let seed = bytes_32(key)?;
        Ok(ED25519Signer::new(seed))
    }

    /// The 32-byte public key of this signing key, which loads as a verifier.
    pub fn verifying_key(&self) -> (r: [u8; 32])
        ensures
            r@ == ed25519_public(self.seed@),
            ed25519_point(r@),
            ED25519Verifier::loads(r@, Ok(ED25519Verifier { key: r })),
    {
        ed25519_public_key(&self.seed)
    }
}

impl TextSign for ED25519Signer {
    open spec fn signs(&self, msg: Seq<u8>, sig: Seq<char>) -> bool {
        &&& sig == hex_text(ed25519_signature(self.seed@, msg), true)
        &&& sig.len() == 128
        &&& ed25519_verdict(ed25519_public(self.seed@), msg, sig) == Ok::<bool, TextError>(true)
    }

    fn sign(&self, msg: &[u8]) -> (r: String) {
        let sig = ed25519_sign(&self.seed, msg);
        let r = signature_hex(&sig);
        proof {
            assert(hex_text(sig@, true).len() == 128);
            lemma_trimmed_hex(sig@, true);
            lemma_signature_hex_round_trip(sig@, true);
        }
        r
    }
}

impl KeyLoader for ED25519Signer {
    open spec fn loads(key: Seq<u8>, r: Result<Self, TextError>) -> bool {
        match r {
            Ok(k) => key.len() == 32 && k.seed@ == key,
            Err(e) => key.len() != 32 && e == (TextError::KeyFormat {
                expected: 32,
                actual: key.len() as usize,
            }),
        }
    }

    fn load(key: &[u8]) -> (r: Result<Self, TextError>) {
        Self::try_new(key)
    }
}

impl ED25519Verifier {
    /// Takes exactly 32 bytes that encode a point of the curve.
    pub fn try_new(key: &[u8]) -> (r: Result<Self, TextError>)
        ensures
            Self::loads(key@, r),
    {
        let key = bytes_32(key)?;
        if ed25519_valid_point(&key) {
            Ok(ED25519Verifier { key })
        } else {
            Err(TextError::InvalidPublicKey)
        }
    }
}

impl TextVerify for ED25519Verifier {
    open spec fn verdict(&self, msg: Seq<u8>, sig: Seq<char>) -> Result<bool, TextError> {
        ed25519_verdict(self.key@, msg, sig)
    }

    fn verify(&self, msg: &[u8], sig: &str) -> (r: Result<bool, TextError>) {
        match parse_signature_hex(trim_whitespace(sig)) {
            Some(b) => Ok(ed25519_check(&self.key, msg, &b)),
            None => Err(TextError::MalformedSignature),
        }
    }
}

impl KeyLoader for ED25519Verifier {
    open spec fn loads(key: Seq<u8>, r: Result<Self, TextError>) -> bool {
        match r {
            Ok(k) => key.len() == 32 && ed25519_point(key) && k.key@ == key,
            Err(e) => if key.len() != 32 {
                e == (TextError::KeyFormat { expected: 32, actual: key.len() as usize })
            } else {
                !ed25519_point(key) && e == TextError::InvalidPublicKey
            },
        }
    }

    fn load(key: &[u8]) -> (r: Result<Self, TextError>) {
        Self::try_new(key)
    }
}

/// Relies on `SigningKey::generate` of ed25519-dalek, drawing from the
/// operating system's generator: a fresh seed, of which nothing is known.
#[verifier::external_body]
fn random_seed() -> (r: [u8; 32]) {
    ed25519_dalek::SigningKey::generate(&mut rand::rngs::OsRng).to_bytes()
}

/// Produces fresh key material.
pub trait KeyGenerator {
    /// Whether `keys` is key material of this algorithm.
    spec fn generated(keys: Seq<Vec<u8>>) -> bool;

    fn generate() -> (r: Result<Vec<Vec<u8>>, TextError>)
        ensures
            r matches Ok(v) && Self::generated(v@),
    ;
}

/// The password options that BLAKE3 keys are drawn with: 32 characters of
/// all four classes.
pub open spec fn blake3_key_opts() -> GenPassOpts {
    GenPassOpts { length: 32, uppercase: true, lowercase: true, number: true, symbol: true }
}

impl KeyGenerator for Blake3 {
    open spec fn generated(keys: Seq<Vec<u8>>) -> bool {
        &&& keys.len() == 1
        &&& is_password(blake3_key_opts(), keys[0]@)
        &&& exists|d: Seq<usize>|
            draws_fit(blake3_key_opts(), d) && keys[0]@.to_multiset() == #[trigger] password_of(
                blake3_key_opts(),
                d,
            ).to_multiset()
    }

    fn generate() -> (r: Result<Vec<Vec<u8>>, TextError>) {
        let opts = GenPassOpts { length: 32, uppercase: true, lowercase: true, number: true, symbol: true };
        let key = generate_password(&opts);
        Ok(vec![key])
    }
}

impl KeyGenerator for ED25519Signer {
    /// A seed, then the public key that belongs to it.
    open spec fn generated(keys: Seq<Vec<u8>>) -> bool {
        &&& keys.len() == 2
        &&& keys[0]@.len() == 32
        &&& keys[1]@.len() == 32
        &&& keys[1]@ == ed25519_public(keys[0]@)
        &&& ed25519_point(keys[1]@)
    }

    fn generate() -> (r: Result<Vec<Vec<u8>>, TextError>) {
        let seed = random_seed();
        let public = ed25519_public_key(&seed);
        Ok(vec![vstd::slice::slice_to_vec(&seed), vstd::slice::slice_to_vec(&public)])
    }
}

/// What signing `msg` with the raw key bytes `key` gives.
pub open spec fn signed(format: TextSignFormat, key: Seq<u8>, msg: Seq<u8>) -> Result<Seq<char>, TextError> {
    if key.len() != 32 {
        Err(TextError::KeyFormat { expected: 32, actual: key.len() as usize })
    } else {
        match format {
            TextSignFormat::Blake3 => Ok(blake3_signature(key, msg)),
            TextSignFormat::ED25519 => Ok(hex_text(ed25519_signature(key, msg), true)),
        }
    }
}

/// What verifying `sig` against `msg` with the raw key bytes `key` gives.
pub open spec fn verified(format: TextSignFormat, key: Seq<u8>, msg: Seq<u8>, sig: Seq<char>) -> Result<bool, TextError> {
    if key.len() != 32 {
        Err(TextError::KeyFormat { expected: 32, actual: key.len() as usize })
    } else {
        match format {
            TextSignFormat::Blake3 => Ok(trimmed(sig) == blake3_signature(key, msg)),
            TextSignFormat::ED25519 => if ed25519_point(key) {
                ed25519_verdict(key, msg, sig)
            } else {
                Err(TextError::InvalidPublicKey)
            },
        }
    }
}

/// What verification gives for `sig` under the key that checks what the
/// signing key `key` signs: the same key for BLAKE3, its public key for Ed25519.
pub open spec fn verdict_for_signing_key(format: TextSignFormat, key: Seq<u8>, msg: Seq<u8>, sig: Seq<char>) -> Result<bool, TextError> {
    match format {
        TextSignFormat::Blake3 => Ok(trimmed(sig) == blake3_signature(key, msg)),
        TextSignFormat::ED25519 => ed25519_verdict(ed25519_public(key), msg, sig),
    }
}

/// Signs a message with the algorithm chosen by `format`.
///
/// A signature that this returns is accepted by verification of the same
/// message under the matching key.
pub fn process_sign(input: &[u8], key: &[u8], format: TextSignFormat) -> (r: Result<String, TextError>)
    ensures
        match r {
            Ok(sig) => signed(format, key@, input@) == Ok::<Seq<char>, TextError>(sig@),
            Err(e) => signed(format, key@, input@) == Err::<Seq<char>, TextError>(e),
        },
        r matches Ok(sig) ==> verdict_for_signing_key(format, key@, input@, sig@) == Ok::<bool, TextError>(true),
        r matches Ok(sig) ==> sig@.len() == match format {
            TextSignFormat::Blake3 => 64int,
            TextSignFormat::ED25519 => 128int,
        },
{
    match format {
        TextSignFormat::Blake3 => {
            let signer = Blake3::load(key)?;
            let sig = signer.sign(input);
            proof {
                lemma_trimmed_hex(blake3_keyed(key@, input@), false);
            }
            Ok(sig)
        },
        TextSignFormat::ED25519 => {
            let signer = ED25519Signer::load(key)?;
            Ok(signer.sign(input))
        },
    }
}

/// Verifies a signature text of a message with the algorithm chosen by
/// `format`. White space around the signature text is ignored.
pub fn process_verify(input: &[u8], key: &[u8], signature: &str, format: TextSignFormat) -> (r: Result<bool, TextError>)
    ensures
        r == verified(format, key@, input@, signature@),
{
    match format {
        TextSignFormat::Blake3 => {
            let verifier = Blake3::load(key)?;
            verifier.verify(input, signature)
        },
        TextSignFormat::ED25519 => {
            let verifier = ED25519Verifier::load(key)?;
            verifier.verify(input, signature)
        },
    }
}

/// Generates key material for the algorithm chosen by `format`.
pub fn process_key_generate(format: TextSignFormat) -> (r: Result<Vec<Vec<u8>>, TextError>)
    ensures
        r matches Ok(v) && match format {
            TextSignFormat::Blake3 => <Blake3 as KeyGenerator>::generated(v@),
            TextSignFormat::ED25519 => <ED25519Signer as KeyGenerator>::generated(v@),
        },
{
    match format {
        TextSignFormat::Blake3 => Blake3::generate(),
        TextSignFormat::ED25519 => ED25519Signer::generate(),
    }
}

/// Verifying a BLAKE3 signature under the key that made it succeeds, for
/// every 32-byte key and every message.
pub proof fn lemma_blake3_sign_then_verify(key: Seq<u8>, msg: Seq<u8>)
    requires
        key.len() == 32,
    ensures
        signed(TextSignFormat::Blake3, key, msg) == Ok::<Seq<char>, TextError>(blake3_signature(key, msg)),
        verified(TextSignFormat::Blake3, key, msg, blake3_signature(key, msg)) == Ok::<bool, TextError>(true),
{
    lemma_trimmed_hex(blake3_keyed(key, msg), false);
}

/// A BLAKE3 signature of one message verifies for another message exactly
/// when the two keyed hashes are equal.
pub proof fn lemma_blake3_other_message(key: Seq<u8>, msg: Seq<u8>, other: Seq<u8>)
    requires
        key.len() == 32,
    ensures
        verified(TextSignFormat::Blake3, key, other, blake3_signature(key, msg)) == Ok::<bool, TextError>(
            blake3_keyed(key, other) == blake3_keyed(key, msg),
        ),
{
    lemma_trimmed_hex(blake3_keyed(key, msg), false);
    if blake3_signature(key, msg) == blake3_signature(key, other) {
        lemma_hex_text_injective(blake3_keyed(key, msg), false, blake3_keyed(key, other), false);
    }
}

/// Signing and verification refuse key material of any length but 32 bytes
/// with a key format error that names both lengths; signing takes every key
/// of exactly 32 bytes.
pub proof fn lemma_key_length_enforced(format: TextSignFormat, key: Seq<u8>, msg: Seq<u8>, sig: Seq<char>)
    ensures
        key.len() != 32 ==> signed(format, key, msg) == Err::<Seq<char>, TextError>(
            TextError::KeyFormat { expected: 32, actual: key.len() as usize },
        ),
        key.len() != 32 ==> verified(format, key, msg, sig) == Err::<bool, TextError>(
            TextError::KeyFormat { expected: 32, actual: key.len() as usize },
        ),
        key.len() == 32 ==> signed(format, key, msg) is Ok,
{
}

} // verus!
