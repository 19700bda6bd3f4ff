use vstd::prelude::*;

verus! {

/// The ways an operation of this library can fail.
#[derive(Debug, Clone, Copy, PartialEq, Eq, Structural)]
pub enum TextError {
    /// Malformed base64 text, or bytes that are not valid UTF-8.
    Encoding,
    /// Key or nonce material of the wrong byte length.
    KeyFormat { expected: usize, actual: usize },
    /// A signature text that does not parse for the chosen algorithm.
    MalformedSignature,
    /// Key bytes that are not a valid public key for the chosen algorithm.
    InvalidPublicKey,
    /// The authentication tag of a ciphertext did not verify.
    Authentication,
    /// An algorithm or format tag that is not known.
    UnsupportedAlgorithm,
    /// The cipher refused the operation for a reason other than authentication.
    Crypto,
    /// An expiry that is not a whole number with an optional unit, or that
    /// leaves the range of timestamps.
    InvalidExpiry,
    /// A token whose signature does not verify, or that does not parse.
    InvalidToken,
}

} // verus!
