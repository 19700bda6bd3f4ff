use vstd::prelude::*;
use vstd::utf8::*;
use chacha20poly1305::aead::{Aead, AeadCore, KeyInit};
use crate::encoding::{base64_len, base64_len_fits, base64_decode, base64_decoded, base64_encode, base64_text, utf8_string, Base64Engine};
use crate::error::TextError;
use crate::keys::{bytes_12, bytes_32};

verus! {

broadcast use vstd::utf8::group_utf8_lib;

/// The longest plaintext, in bytes, that ChaCha20-Poly1305 encrypts, plus one.
pub open spec fn plaintext_limit() -> nat {
    274877906880
}

/// The ciphertext and tag that ChaCha20-Poly1305 gives for a key, nonce and
/// plaintext, with no associated data.
pub uninterp spec fn aead_sealed(key: Seq<u8>, nonce: Seq<u8>, msg: Seq<u8>) -> Seq<u8>;

/// The plaintext that ChaCha20-Poly1305 recovers from ciphertext and tag, if
/// the tag verifies.
pub uninterp spec fn aead_opened(key: Seq<u8>, nonce: Seq<u8>, ct: Seq<u8>) -> Option<Seq<u8>>;

/// Relies on `Aead::encrypt` of chacha20poly1305: it refuses a plaintext of
/// 2^32 - 1 blocks of 64 bytes or more; otherwise it appends a 16-byte tag, and
/// decryption under the same key and nonce gives the plaintext back.
#[verifier::external_body]
fn seal(key: &[u8; 32], nonce: &[u8; 12], msg: &[u8]) -> (r: Option<Vec<u8>>)
    ensures
        r is Some <==> msg@.len() < plaintext_limit(),
        r matches Some(c) ==> c@ == aead_sealed(key@, nonce@, msg@) && c@.len() == msg@.len() + 16
            && aead_opened(key@, nonce@, c@) == Some(msg@),
{
    let cipher = chacha20poly1305::ChaCha20Poly1305::new(chacha20poly1305::Key::from_slice(key));
    cipher.encrypt(chacha20poly1305::Nonce::from_slice(nonce), msg).ok()
}

/// Relies on `Aead::decrypt` of chacha20poly1305.
#[verifier::external_body]
fn open(key: &[u8; 32], nonce: &[u8; 12], ct: &[u8]) -> (r: Option<Vec<u8>>)
    ensures
        match r {
            Some(p) => aead_opened(key@, nonce@, ct@) == Some(p@),
            None => aead_opened(key@, nonce@, ct@) is None,
        },
{
    let cipher = chacha20poly1305::ChaCha20Poly1305::new(chacha20poly1305::Key::from_slice(key));
    cipher.decrypt(chacha20poly1305::Nonce::from_slice(nonce), ct).ok()
}

/// Relies on `AeadCore::generate_key` of chacha20poly1305 with the operating
/// system's generator: a fresh key, of which nothing is known.
#[verifier::external_body]
fn random_key() -> (r: [u8; 32]) {
    chacha20poly1305::ChaCha20Poly1305::generate_key(&mut rand::rngs::OsRng).into()
}

/// Relies on `AeadCore::generate_nonce` of chacha20poly1305 with the operating
/// system's generator: a fresh nonce, of which nothing is known.
#[verifier::external_body]
fn random_nonce() -> (r: [u8; 12]) {
    chacha20poly1305::ChaCha20Poly1305::generate_nonce(&mut rand::rngs::OsRng).into()
}

/// A key and nonce for encryption.
pub struct Encrypt {
    pub key: [u8; 32],
    pub nonce: [u8; 12],
}

/// A key and nonce for decryption.
pub struct Decrypt {
    pub key: [u8; 32],
    pub nonce: [u8; 12],
}

/// What checking the lengths of key and nonce material gives: the first that
/// is not 32 or 12 bytes long, in that order.
pub open spec fn key_nonce_error(key: Seq<u8>, nonce: Seq<u8>) -> Option<TextError> {
    if key.len() != 32 {
        Some(TextError::KeyFormat { expected: 32, actual: key.len() as usize })
    } else if nonce.len() != 12 {
        Some(TextError::KeyFormat { expected: 12, actual: nonce.len() as usize })
    } else {
        None
    }
}

/// Builds a key-and-nonce object from raw key and nonce bytes.
pub trait ChaKeyLoader: Sized {
    /// The key and nonce that the object holds.
    spec fn material(&self) -> (Seq<u8>, Seq<u8>);

    fn load(key: &[u8], nonce: &[u8]) -> (r: Result<Self, TextError>)
        ensures
            match r {
                Ok(c) => key_nonce_error(key@, nonce@) is None && c.material() == (key@, nonce@),
                Err(e) => key_nonce_error(key@, nonce@) == Some(e),
            },
    ;
}

impl Encrypt {
    pub fn new(key: [u8; 32], nonce: [u8; 12]) -> (r: Self)
        ensures
            r.key == key,
            r.nonce == nonce,
    {
        Encrypt { key, nonce }
    }

    /// Takes a key of exactly 32 bytes and a nonce of exactly 12.
    pub fn try_new(key: &[u8], nonce: &[u8]) -> (r: Result<Self, TextError>)
        ensures
            match r {
                Ok(c) => key_nonce_error(key@, nonce@) is None && c.key@ == key@ && c.nonce@ == nonce@,
                Err(e) => key_nonce_error(key@, nonce@) == Some(e),
            },
    {
        let key = bytes_32(key)?;
        let nonce = bytes_12(nonce)?;
        Ok(Encrypt::new(key, nonce))
    }
}

impl Decrypt {
    pub fn new(key: [u8; 32], nonce: [u8; 12]) -> (r: Self)
        ensures
            r.key == key,
            r.nonce == nonce,
    {
        Decrypt { key, nonce }
    }

    /// Takes a key of exactly 32 bytes and a nonce of exactly 12.
    pub fn try_new(key: &[u8], nonce: &[u8]) -> (r: Result<Self, TextError>)
        ensures
            match r {
                Ok(c) => key_nonce_error(key@, nonce@) is None && c.key@ == key@ && c.nonce@ == nonce@,
                Err(e) => key_nonce_error(key@, nonce@) == Some(e),
            },
    {
        let key = bytes_32(key)?;
        let nonce = bytes_12(nonce)?;
        Ok(Decrypt::new(key, nonce))
    }
}

impl ChaKeyLoader for Encrypt {
    open spec fn material(&self) -> (Seq<u8>, Seq<u8>) {
        (self.key@, self.nonce@)
    }

    fn load(key: &[u8], nonce: &[u8]) -> (r: Result<Self, TextError>) {
        Encrypt::try_new(key, nonce)
    }
}

impl ChaKeyLoader for Decrypt {
    open spec fn material(&self) -> (Seq<u8>, Seq<u8>) {
        (self.key@, self.nonce@)
    }

    fn load(key: &[u8], nonce: &[u8]) -> (r: Result<Self, TextError>) {
        Decrypt::try_new(key, nonce)
    }
}

/// What encrypting a text gives: the unpadded standard base64 of the
/// ciphertext and tag of its UTF-8 bytes, where the cipher takes the
/// plaintext and the length of the base64 text fits in `usize`.
pub open spec fn encrypted(key: Seq<u8>, nonce: Seq<u8>, text: Seq<char>) -> Result<Seq<char>, TextError> {
    match key_nonce_error(key, nonce) {
        Some(e) => Err(e),
        None => if encode_utf8(text).len() < plaintext_limit() && base64_len(
            encode_utf8(text).len() + 16int,
            false,
        ) <= usize::MAX {
            Ok(base64_text(aead_sealed(key, nonce, encode_utf8(text)), false, false))
        } else {
            Err(TextError::Crypto)
        },
    }
}

/// What decrypting an unpadded standard base64 text gives: an encoding error
/// for bad base64, an authentication error where the tag does not verify, an
/// encoding error where the plaintext is not UTF-8, else the plaintext.
pub open spec fn decrypted(key: Seq<u8>, nonce: Seq<u8>, text: Seq<char>) -> Result<Seq<char>, TextError> {
    match key_nonce_error(key, nonce) {
        Some(e) => Err(e),
        None => match base64_decoded(text, false, false) {
            None => Err(TextError::Encoding),
            Some(ct) => match aead_opened(key, nonce, ct) {
                None => Err(TextError::Authentication),
                Some(pt) => if valid_utf8(pt) {
                    Ok(decode_utf8(pt))
                } else {
                    Err(TextError::Encoding)
                },
            },
        },
    }
}

/// Encrypts a text with ChaCha20-Poly1305 and frames the result as base64.
///
/// Decrypting what this returns with the same key and nonce gives the text back.
///
/// Warning: the caller must never use one nonce twice with one key for
/// different texts. Nothing here tracks nonces, and a reused nonce lets an
/// observer recover the XOR of the two plaintexts and forge tags.
/// Generate a fresh nonce for every encryption.
pub fn process_encrypt(input: &str, key: &[u8], nonce: &[u8]) -> (r: Result<String, TextError>)
    ensures
        match r {
            Ok(c) => encrypted(key@, nonce@, input@) == Ok::<Seq<char>, TextError>(c@),
            Err(e) => encrypted(key@, nonce@, input@) == Err::<Seq<char>, TextError>(e),
        },
        r matches Ok(c) ==> decrypted(key@, nonce@, c@) == Ok::<Seq<char>, TextError>(input@),
        r matches Ok(c) ==> base64_decoded(c@, false, false) matches Some(ct) && ct.len()
            == encode_utf8(input@).len() + 16,
{
    let encrypt = Encrypt::load(key, nonce)?;
    let msg = input.as_bytes();
    match seal(&encrypt.key, &encrypt.nonce, msg) {
        Some(c) => {
            if !base64_len_fits(c.len(), false) {
                return Err(TextError::Crypto);
            }
            let text = base64_encode(c.as_slice(), Base64Engine::StandardNoPad);
            Ok(text)
        },
        None => Err(TextError::Crypto),
    }
}

/// Decodes base64 text and decrypts it with ChaCha20-Poly1305.
pub fn process_decrypt(input: &str, key: &[u8], nonce: &[u8]) -> (r: Result<String, TextError>)
    ensures
        match r {
            Ok(p) => decrypted(key@, nonce@, input@) == Ok::<Seq<char>, TextError>(p@),
            Err(e) => decrypted(key@, nonce@, input@) == Err::<Seq<char>, TextError>(e),
        },
{
    let decrypt = Decrypt::load(key, nonce)?;
    let ct = match base64_decode(input, Base64Engine::StandardNoPad) {
        Some(ct) => ct,
        None => return Err(TextError::Encoding),
    };
    let pt = match open(&decrypt.key, &decrypt.nonce, ct.as_slice()) {
        Some(pt) => pt,
        None => return Err(TextError::Authentication),
    };
    match utf8_string(pt) {
        Some(s) => Ok(s),
        None => Err(TextError::Encoding),
    }
}

/// Generates a fresh 32-byte key and 12-byte nonce.
pub fn process_chacha_key_generate() -> (r: Result<Vec<Vec<u8>>, TextError>)
    ensures
        r matches Ok(v) && v@.len() == 2 && v@[0]@.len() == 32 && v@[1]@.len() == 12,
{
    let key = random_key();
    let nonce = random_nonce();
    Ok(vec![vstd::slice::slice_to_vec(&key), vstd::slice::slice_to_vec(&nonce)])
}

/// Encryption and decryption refuse a key of any length but 32 bytes, or a
/// nonce of any length but 12, with a key format error that names both
/// lengths; they take every key and nonce of exactly those lengths.
pub proof fn lemma_key_nonce_length_enforced(key: Seq<u8>, nonce: Seq<u8>, text: Seq<char>)
    ensures
        key.len() != 32 ==> encrypted(key, nonce, text) == Err::<Seq<char>, TextError>(
            TextError::KeyFormat { expected: 32, actual: key.len() as usize },
        ) && decrypted(key, nonce, text) == Err::<Seq<char>, TextError>(
            TextError::KeyFormat { expected: 32, actual: key.len() as usize },
        ),
        key.len() == 32 && nonce.len() != 12 ==> encrypted(key, nonce, text) == Err::<Seq<char>, TextError>(
            TextError::KeyFormat { expected: 12, actual: nonce.len() as usize },
        ) && decrypted(key, nonce, text) == Err::<Seq<char>, TextError>(
            TextError::KeyFormat { expected: 12, actual: nonce.len() as usize },
        ),
        key_nonce_error(key, nonce) is None <==> key.len() == 32 && nonce.len() == 12,
{
}

} // verus!
