use rcli::{
    expiry_timestamp, parse_format, process_genpass, process_jwt_sign, process_jwt_verify,
    GenPassOpts, OutputFormat, TextError,
};

#[test]
fn password_has_length_and_classes() {
    let opts = GenPassOpts { length: 16, uppercase: true, lowercase: true, number: true, symbol: true };
    let p = process_genpass(opts).unwrap();
    assert_eq!(p.len(), 16);
    assert!(p.chars().any(|c| c.is_ascii_uppercase()));
    assert!(p.chars().any(|c| c.is_ascii_lowercase()));
    assert!(p.chars().any(|c| ('1'..='9').contains(&c)));
    assert!(p.chars().any(|c| "!@#$%^&*_".contains(c)));
    assert!(!p.contains('0'));
}

#[test]
fn password_uses_only_selected_classes() {
    let opts = GenPassOpts { length: 40, uppercase: false, lowercase: false, number: true, symbol: false };
    let p = process_genpass(opts).unwrap();
    assert_eq!(p.len(), 40);
    assert!(p.chars().all(|c| ('1'..='9').contains(&c)));
}

#[test]
fn empty_password() {
    let opts = GenPassOpts { length: 0, uppercase: false, lowercase: false, number: false, symbol: false };
    assert_eq!(process_genpass(opts).unwrap(), "");
}

#[test]
fn expiry_units() {
    assert_eq!(expiry_timestamp(1000, "2d"), Ok(1000 + 2 * 86400));
    assert_eq!(expiry_timestamp(1000, "5m"), Ok(1300));
    assert_eq!(expiry_timestamp(1000, "1M"), Ok(1000 + 604800));
    assert_eq!(expiry_timestamp(1000, "-1m"), Ok(940));
    assert_eq!(expiry_timestamp(1000, "+3m"), Ok(1180));
    assert_eq!(expiry_timestamp(1000, ""), Ok(1000));
    assert_eq!(expiry_timestamp(1000, "10"), Ok(1000));
}

#[test]
fn bad_expiry_is_an_error() {
    assert_eq!(expiry_timestamp(1000, "xd"), Err(TextError::InvalidExpiry));
    assert_eq!(expiry_timestamp(1000, "d"), Err(TextError::InvalidExpiry));
    assert_eq!(expiry_timestamp(1000, "-d"), Err(TextError::InvalidExpiry));
    assert_eq!(expiry_timestamp(i64::MAX, "1m"), Err(TextError::InvalidExpiry));
    assert_eq!(expiry_timestamp(0, "99999999999999999999999d"), Err(TextError::InvalidExpiry));
}

#[test]
fn token_round_trip() {
    let key = b"some-secret";
    let t = process_jwt_sign("acme", "device", key, "14d").unwrap();
    let claims = process_jwt_verify(&t, key).unwrap();
    assert_eq!(claims.get("sub").map(|s| s.as_str()), Some("acme"));
    assert_eq!(claims.get("aud").map(|s| s.as_str()), Some("device"));
    assert!(claims.get("exp").unwrap().parse::<i64>().unwrap() > 0);
    assert_eq!(process_jwt_verify(&t, b"other-secret"), Err(TextError::InvalidToken));
    assert_eq!(process_jwt_verify("not.a.token", key), Err(TextError::InvalidToken));
}

#[test]
fn output_format_names() {
    assert_eq!(parse_format("json"), Ok(OutputFormat::Json));
    assert_eq!(parse_format("yaml"), Ok(OutputFormat::Yaml));
    assert_eq!(parse_format("xml"), Err(TextError::UnsupportedAlgorithm));
    assert_eq!(OutputFormat::Yaml.to_string(), "yaml");
}

#[test]
fn directory_listing_page() {
    let entries = vec![
        ("./a.txt".to_string(), "a.txt".to_string()),
        ("./sub".to_string(), "sub".to_string()),
    ];
    assert_eq!(
        rcli::render_listing(&entries),
        "<html><body><ul><li><a href=\"./a.txt\">a.txt</a></li><li><a href=\"./sub\">sub</a></li></ul></body></html>"
    );
    assert_eq!(rcli::render_listing(&Vec::new()), "<html><body><ul></ul></body></html>");
}

#[test]
fn record_fields_pair_headers_with_fields() {
    let headers = vec!["Name".to_string(), "Position".to_string(), "Kit".to_string()];
    let record = vec!["Ann".to_string(), "Keeper".to_string()];
    let fields = rcli::record_fields(&headers, &record);
    assert_eq!(
        fields,
        vec![
            ("Name".to_string(), "Ann".to_string()),
            ("Position".to_string(), "Keeper".to_string())
        ]
    );
    assert!(rcli::record_fields(&Vec::new(), &record).is_empty());
}

#[test]
fn password_from_draws_picks_classes_then_fill() {
    let opts = GenPassOpts { length: 6, uppercase: true, lowercase: true, number: true, symbol: true };
    // Allowed characters: A..Z, a..z, 1..9, then !@#$%^&*_ at 61..69.
    let draws = vec![2usize, 25, 8, 0, 0, 69];
    assert_eq!(rcli::password_from_draws(&opts, &draws), b"Cz9!A_".to_vec());
    let opts = GenPassOpts { length: 3, uppercase: false, lowercase: true, number: false, symbol: true };
    let draws = vec![1usize, 3, 27];
    assert_eq!(rcli::password_from_draws(&opts, &draws), b"b$@".to_vec());
}

#[test]
fn decimal_text_of_integers() {
    assert_eq!(rcli::decimal_string(0), "0");
    assert_eq!(rcli::decimal_string(1700000000), "1700000000");
    assert_eq!(rcli::decimal_string(-42), "-42");
    assert_eq!(rcli::decimal_string(i64::MIN), i64::MIN.to_string());
    assert_eq!(rcli::decimal_string(i64::MAX), i64::MAX.to_string());
}

#[test]
fn token_signed_at_a_given_time() {
    let key = b"k";
    let t = rcli::process_jwt_sign_at(1000, "s", "a", key, "1m").unwrap();
    let claims = process_jwt_verify(&t, key).unwrap();
    assert_eq!(claims.get("exp").map(|s| s.as_str()), Some("1060"));
    assert_eq!(claims.get("sub").map(|s| s.as_str()), Some("s"));
    assert_eq!(rcli::process_jwt_sign_at(1000, "s", "a", key, "1m").unwrap(), t);
    assert_eq!(rcli::process_jwt_sign_at(1000, "s", "a", key, "xm"), Err(TextError::InvalidExpiry));
}
