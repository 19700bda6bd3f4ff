use rcli::{parse_base64_format, process_decode, process_encode, Base64Format, TextError};

#[test]
fn test_process_encode() {
    // What an empty standard input reads as.
    let input = "";
    let format = Base64Format::Standard;
    assert!(process_encode(input, format).is_ok());
}

#[test]
fn test_process_decode() {
    let input = "aGVsbG8gd29ybGQ=";
    let format = Base64Format::Standard;
    assert!(process_decode(input, format).is_ok());
}

#[test]
fn encode_standard_pads() {
    assert_eq!(process_encode("hello", Base64Format::Standard).unwrap(), "aGVsbG8=");
    assert_eq!(process_encode("", Base64Format::Standard).unwrap(), "");
}

#[test]
fn encode_url_safe_has_no_padding() {
    assert_eq!(process_encode("hello", Base64Format::UrlSafe).unwrap(), "aGVsbG8");
    assert_eq!(process_encode("??>", Base64Format::UrlSafe).unwrap(), "Pz8-");
    assert_eq!(process_encode("??>", Base64Format::Standard).unwrap(), "Pz8+");
}

#[test]
fn decode_gives_text_back() {
    assert_eq!(process_decode("aGVsbG8gd29ybGQ=", Base64Format::Standard).unwrap(), "hello world");
    assert_eq!(process_decode("aGVsbG8", Base64Format::UrlSafe).unwrap(), "hello");
}

#[test]
fn decode_rejects_bad_base64() {
    assert_eq!(process_decode("a$b", Base64Format::Standard), Err(TextError::Encoding));
}

#[test]
fn decode_rejects_bytes_that_are_not_utf8() {
    // "/w==" is the single byte 0xff.
    assert_eq!(process_decode("/w==", Base64Format::Standard), Err(TextError::Encoding));
}

#[test]
fn base64_format_names() {
    assert_eq!(parse_base64_format("standard"), Ok(Base64Format::Standard));
    assert_eq!(parse_base64_format("url_safe"), Ok(Base64Format::UrlSafe));
    assert_eq!(parse_base64_format("hex"), Err(TextError::UnsupportedAlgorithm));
    assert_eq!(Base64Format::UrlSafe.to_string(), "url_safe");
}
