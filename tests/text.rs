use rcli::{
    parse_sign_format, process_key_generate, process_sign, process_verify, trim_whitespace, Blake3,
    ED25519Signer, ED25519Verifier, KeyLoader, TextError, TextSign, TextSignFormat, TextVerify,
};

fn hex_bytes(s: &str) -> Vec<u8> {
    (0..s.len() / 2).map(|i| u8::from_str_radix(&s[2 * i..2 * i + 2], 16).unwrap()).collect()
}

const SEED: &str = "9d61b19deffd5a60ba844af492ec2cc44449c5697b326919703bac031cae7f60";
const PUBLIC: &str = "d75a980182b10ab7d54bfed3c964073a0ee172f3daa62325af021a68f707511a";
const EMPTY_SIG: &str = "e5564300c360ac729086e2cc806e828a84877f1eb8e5d974d873e065224901555fb8821590a33bacc61e39701cf9b46bd25bf5f0595bbe24655141438e7a100b";

#[test]
fn test_ed25519_verify() {
    let keys = process_key_generate(TextSignFormat::ED25519).unwrap();
    let sk = ED25519Signer::load(&keys[0]).unwrap();
    let pk = ED25519Verifier::load(&keys[1]).unwrap();
    let data = b"hello world";
    let sig = sk.sign(data);
    assert!(pk.verify(data, &sig).unwrap());
}

#[test]
fn ed25519_known_signature() {
    let seed = hex_bytes(SEED);
    let sig = process_sign(b"", &seed, TextSignFormat::ED25519).unwrap();
    assert_eq!(sig, EMPTY_SIG.to_uppercase());
    let pk = hex_bytes(PUBLIC);
    assert_eq!(process_verify(b"", &pk, EMPTY_SIG, TextSignFormat::ED25519), Ok(true));
    assert_eq!(process_verify(b"", &pk, &sig, TextSignFormat::ED25519), Ok(true));
}

#[test]
fn ed25519_generated_public_key_matches() {
    let keys = process_key_generate(TextSignFormat::ED25519).unwrap();
    assert_eq!(keys.len(), 2);
    assert_eq!(keys[0].len(), 32);
    assert_eq!(keys[1].len(), 32);
    let known = hex_bytes(SEED);
    assert_ne!(keys[0], known);
}

#[test]
fn hello_world_signature_scenario() {
    let keys = process_key_generate(TextSignFormat::ED25519).unwrap();
    let sig = process_sign(b"hello world", &keys[0], TextSignFormat::ED25519).unwrap();
    assert_eq!(sig.len(), 128);
    assert_eq!(process_verify(b"hello world", &keys[1], &sig, TextSignFormat::ED25519), Ok(true));
    assert_eq!(process_verify(b"hello world!", &keys[1], &sig, TextSignFormat::ED25519), Ok(false));
}

#[test]
fn sign_then_verify_accepts_for_each_algorithm() {
    let payloads: [&[u8]; 3] = [b"", b"a", b"the quick brown fox"];
    let bkey = process_key_generate(TextSignFormat::Blake3).unwrap();
    let ekeys = process_key_generate(TextSignFormat::ED25519).unwrap();
    for p in payloads {
        let s = process_sign(p, &bkey[0], TextSignFormat::Blake3).unwrap();
        assert_eq!(process_verify(p, &bkey[0], &s, TextSignFormat::Blake3), Ok(true));
        let s = process_sign(p, &ekeys[0], TextSignFormat::ED25519).unwrap();
        assert_eq!(process_verify(p, &ekeys[1], &s, TextSignFormat::ED25519), Ok(true));
    }
}

#[test]
fn single_byte_change_is_rejected() {
    let bkey = process_key_generate(TextSignFormat::Blake3).unwrap();
    let ekeys = process_key_generate(TextSignFormat::ED25519).unwrap();
    let p = b"payload".to_vec();
    let mut q = p.clone();
    q[3] ^= 1;
    let s = process_sign(&p, &bkey[0], TextSignFormat::Blake3).unwrap();
    assert_eq!(process_verify(&q, &bkey[0], &s, TextSignFormat::Blake3), Ok(false));
    let s = process_sign(&p, &ekeys[0], TextSignFormat::ED25519).unwrap();
    assert_eq!(process_verify(&q, &ekeys[1], &s, TextSignFormat::ED25519), Ok(false));
}

#[test]
fn blake3_signature_is_lowercase_hex_and_deterministic() {
    let key = [7u8; 32];
    let a = process_sign(b"message", &key, TextSignFormat::Blake3).unwrap();
    let b = process_sign(b"message", &key, TextSignFormat::Blake3).unwrap();
    assert_eq!(a, b);
    assert_eq!(a.len(), 64);
    assert!(a.chars().all(|c| c.is_ascii_digit() || ('a'..='f').contains(&c)));
    let c = process_sign(b"message", &[8u8; 32], TextSignFormat::Blake3).unwrap();
    assert_ne!(a, c);
}

#[test]
fn verification_ignores_surrounding_white_space() {
    let key = [7u8; 32];
    let s = process_sign(b"m", &key, TextSignFormat::Blake3).unwrap();
    let padded = format!("  {}\n", s);
    assert_eq!(process_verify(b"m", &key, &padded, TextSignFormat::Blake3), Ok(true));
    let seed = hex_bytes(SEED);
    let s = process_sign(b"m", &seed, TextSignFormat::ED25519).unwrap();
    let padded = format!("\t{}\r\n", s);
    assert_eq!(process_verify(b"m", &hex_bytes(PUBLIC), &padded, TextSignFormat::ED25519), Ok(true));
}

#[test]
fn key_length_is_enforced() {
    for n in [0usize, 31, 33, 64] {
        let key = vec![1u8; n];
        assert_eq!(
            process_sign(b"x", &key, TextSignFormat::Blake3),
            Err(TextError::KeyFormat { expected: 32, actual: n })
        );
        assert_eq!(
            process_sign(b"x", &key, TextSignFormat::ED25519),
            Err(TextError::KeyFormat { expected: 32, actual: n })
        );
        assert_eq!(
            process_verify(b"x", &key, "00", TextSignFormat::ED25519),
            Err(TextError::KeyFormat { expected: 32, actual: n })
        );
        assert!(Blake3::try_new(&key).is_err());
    }
    assert!(Blake3::try_new(&[1u8; 32]).is_ok());
    assert!(ED25519Signer::try_new(&[1u8; 32]).is_ok());
}

#[test]
fn malformed_ed25519_signature_is_an_error() {
    let pk = hex_bytes(PUBLIC);
    assert_eq!(
        process_verify(b"", &pk, "not a signature", TextSignFormat::ED25519),
        Err(TextError::MalformedSignature)
    );
    let mixed = format!("{}{}", &EMPTY_SIG[..64].to_uppercase(), &EMPTY_SIG[64..]);
    assert_eq!(
        process_verify(b"", &pk, &mixed, TextSignFormat::ED25519),
        Err(TextError::MalformedSignature)
    );
}

#[test]
fn blake3_wrong_signature_is_false_not_error() {
    assert_eq!(process_verify(b"x", &[1u8; 32], "nonsense", TextSignFormat::Blake3), Ok(false));
}

#[test]
fn generated_keys_differ() {
    let a = process_key_generate(TextSignFormat::ED25519).unwrap();
    let b = process_key_generate(TextSignFormat::ED25519).unwrap();
    assert_ne!(a[0], b[0]);
    assert_ne!(a[1], b[1]);
}

#[test]
fn blake3_key_is_a_32_character_password() {
    let keys = process_key_generate(TextSignFormat::Blake3).unwrap();
    assert_eq!(keys.len(), 1);
    assert_eq!(keys[0].len(), 32);
    let k = &keys[0];
    assert!(k.iter().any(|b| b.is_ascii_uppercase()));
    assert!(k.iter().any(|b| b.is_ascii_lowercase()));
    assert!(k.iter().any(|b| (b'1'..=b'9').contains(b)));
    assert!(k.iter().any(|b| b"!@#$%^&*_".contains(b)));
}

#[test]
fn sign_format_names() {
    assert_eq!(parse_sign_format("blake3"), Ok(TextSignFormat::Blake3));
    assert_eq!(parse_sign_format("ed25519"), Ok(TextSignFormat::ED25519));
    assert_eq!(parse_sign_format("rsa"), Err(TextError::UnsupportedAlgorithm));
    assert_eq!(TextSignFormat::ED25519.to_string(), "ed25519");
    assert_eq!("blake3".parse::<TextSignFormat>(), Ok(TextSignFormat::Blake3));
}

#[test]
fn trimming_removes_white_space_at_both_ends() {
    assert_eq!(trim_whitespace("  abc \n"), "abc");
    assert_eq!(trim_whitespace("\u{a0}a b\u{3000}"), "a b");
    assert_eq!(trim_whitespace(" \t "), "");
}

#[test]
fn public_key_off_the_curve_is_rejected() {
    // y = 2 has no x on the curve.
    let mut key = [0u8; 32];
    key[0] = 2;
    assert_eq!(
        process_verify(b"x", &key, EMPTY_SIG, TextSignFormat::ED25519),
        Err(TextError::InvalidPublicKey)
    );
    assert!(ED25519Verifier::try_new(&key).is_err());
}

#[test]
fn verifying_key_of_a_seed() {
    let signer = ED25519Signer::new(hex_bytes(SEED).try_into().unwrap());
    assert_eq!(signer.verifying_key().to_vec(), hex_bytes(PUBLIC));
    let keys = process_key_generate(TextSignFormat::ED25519).unwrap();
    let signer = ED25519Signer::try_new(&keys[0]).unwrap();
    assert_eq!(signer.verifying_key().to_vec(), keys[1]);
    assert!(ED25519Verifier::try_new(&signer.verifying_key()).is_ok());
}
