use base64::Engine;
use rcli::{process_chacha_key_generate, process_decrypt, process_encrypt, Decrypt, Encrypt, TextError};

#[test]
fn test_payload_scenario() {
    let keys = process_chacha_key_generate().unwrap();
    assert_eq!(keys[0].len(), 32);
    assert_eq!(keys[1].len(), 12);
    let c = process_encrypt("test-payload", &keys[0], &keys[1]).unwrap();
    assert_eq!(process_decrypt(&c, &keys[0], &keys[1]).unwrap(), "test-payload");
}

#[test]
fn round_trip_for_several_texts() {
    let key = [3u8; 32];
    let nonce = [9u8; 12];
    for t in ["", "a", "héllo wörld", "line\nbreak"] {
        let c = process_encrypt(t, &key, &nonce).unwrap();
        assert_eq!(process_decrypt(&c, &key, &nonce).unwrap(), t);
    }
}

#[test]
fn ciphertext_is_unpadded_base64_of_text_and_tag() {
    let c = process_encrypt("abcd", &[0u8; 32], &[0u8; 12]).unwrap();
    assert!(!c.contains('='));
    let raw = base64::engine::general_purpose::STANDARD_NO_PAD.decode(&c).unwrap();
    assert_eq!(raw.len(), 4 + 16);
    assert_ne!(&raw[..4], b"abcd");
}

#[test]
fn flipped_bit_fails_authentication() {
    let key = [5u8; 32];
    let nonce = [6u8; 12];
    let c = process_encrypt("secret", &key, &nonce).unwrap();
    let raw = base64::engine::general_purpose::STANDARD_NO_PAD.decode(&c).unwrap();
    for i in 0..raw.len() {
        let mut t = raw.clone();
        t[i] ^= 0x10;
        let tampered = base64::engine::general_purpose::STANDARD_NO_PAD.encode(&t);
        assert_eq!(process_decrypt(&tampered, &key, &nonce), Err(TextError::Authentication));
    }
}

#[test]
fn wrong_key_or_nonce_fails_authentication() {
    let c = process_encrypt("secret", &[5u8; 32], &[6u8; 12]).unwrap();
    assert_eq!(process_decrypt(&c, &[4u8; 32], &[6u8; 12]), Err(TextError::Authentication));
    assert_eq!(process_decrypt(&c, &[5u8; 32], &[7u8; 12]), Err(TextError::Authentication));
}

#[test]
fn malformed_base64_is_an_encoding_error() {
    assert_eq!(process_decrypt("@@@", &[5u8; 32], &[6u8; 12]), Err(TextError::Encoding));
}

#[test]
fn key_and_nonce_lengths_are_enforced() {
    assert_eq!(
        process_encrypt("x", &[0u8; 31], &[0u8; 12]),
        Err(TextError::KeyFormat { expected: 32, actual: 31 })
    );
    assert_eq!(
        process_encrypt("x", &[0u8; 32], &[0u8; 11]),
        Err(TextError::KeyFormat { expected: 12, actual: 11 })
    );
    assert_eq!(
        process_decrypt("x", &[0u8; 32], &[0u8; 13]),
        Err(TextError::KeyFormat { expected: 12, actual: 13 })
    );
    assert!(Encrypt::try_new(&[0u8; 32], &[0u8; 12]).is_ok());
    assert!(Decrypt::try_new(&[0u8; 33], &[0u8; 12]).is_err());
}

#[test]
fn generated_keys_and_nonces_differ() {
    let a = process_chacha_key_generate().unwrap();
    let b = process_chacha_key_generate().unwrap();
    assert_ne!(a[0], b[0]);
    assert_ne!(a[1], b[1]);
}
