//! Text signing, verification, authenticated encryption and key generation
//! over byte payloads, with base64 framing for ciphertext, and the small
//! text utilities around them: base64 encoding, password generation and
//! HMAC-signed tokens.

mod b64;
mod cipher;
mod csv_rows;
mod encoding;
mod error;
mod format;
mod gen_pass;
mod keys;
mod listing;
mod text;
mod token;

pub use b64::{decoded_text, engine_of, process_decode, process_encode};
pub use cipher::{
    aead_opened, aead_sealed, decrypted, encrypted, key_nonce_error, lemma_key_nonce_length_enforced,
    plaintext_limit,
    process_chacha_key_generate, process_decrypt, process_encrypt, ChaKeyLoader, Decrypt,
    Encrypt,
};
pub use csv_rows::{record_fields, zip_fields};
pub use encoding::{
    base64_decoded, base64_digit, base64_len, base64_len_fits, base64_text, hex_digit, hex_text,
    is_white_space, trim_whitespace, trimmed, Base64Engine,
};
pub use error::TextError;
pub use format::{
    base64_format_from, output_format_from, parse_base64_format, parse_format, parse_sign_format,
    sign_format_from, text_eq, Base64Format, OutputFormat, TextSignFormat,
};
pub use gen_pass::{
    allowed_chars, ascii_text, class_count, draws_fit, generate_password, has_one_of, is_password,
    lemma_draws_give_password, lemma_shuffled_password, password_from_draws, password_of,
    selected_classes,
    lower_chars, number_chars, process_genpass, symbol_chars, upper_chars, GenPassOpts,
};
pub use keys::{bytes_12, bytes_32};
pub use listing::{entry_views, listing_item, listing_items, listing_page, render_listing};
pub use text::{
    blake3_key_opts, blake3_keyed, blake3_signature, ed25519_accepts, ed25519_point,
    ed25519_public, ed25519_signature, ed25519_verdict, lemma_blake3_other_message,
    lemma_blake3_sign_then_verify, lemma_key_length_enforced, process_key_generate, process_sign,
    process_verify, signature_from_hex, signed, verdict_for_signing_key, verified, Blake3,
    ED25519Signer, ED25519Verifier, KeyGenerator, KeyLoader, TextSign, TextVerify,
};
pub use token::{
    claim_views, decimal_digit, decimal_string, decimal_text, decimal_value, digits_text,
    expiry_of, expiry_timestamp, jwt_claims, jwt_token, lemma_decimal_round_trip, process_jwt_sign,
    process_jwt_sign_at, process_jwt_verify, token_claims, token_signed, JWTSign, JWTVerify, LoadKey,
};
