use url_encoder::DecodeError;
use url_encoder::URLEncoder;

#[test]
fn encode_unreserved_unchanged() {
    let enc = URLEncoder::new("Hello-World_.~123".to_string());
    assert_eq!(enc.encode(), "Hello-World_.~123");
}

#[test]
fn encode_space_becomes_plus() {
    let enc = URLEncoder::new("a b".to_string());
    assert_eq!(enc.encode(), "a+b");
}

#[test]
fn encode_reserved_becomes_triplet() {
    let enc = URLEncoder::new("a&b=c".to_string());
    assert_eq!(enc.encode(), "a%26b%3Dc");
    let enc = URLEncoder::new("/?".to_string());
    assert_eq!(enc.encode(), "%2F%3F");
}

#[test]
fn encode_empty_is_empty() {
    let enc = URLEncoder::new(String::new());
    assert_eq!(enc.encode(), "");
}

#[test]
fn encode_truncates_high_code_points() {
    // U+00E9 fits one byte; U+20AC and U+0100 keep only their low byte.
    let enc = URLEncoder::new("\u{e9}".to_string());
    assert_eq!(enc.encode(), "%E9");
    let enc = URLEncoder::new("\u{20ac}".to_string());
    assert_eq!(enc.encode(), "%AC");
    let enc = URLEncoder::new("\u{100}".to_string());
    assert_eq!(enc.encode(), "%00");
}

#[test]
fn decode_plus_becomes_space() {
    let enc = URLEncoder::new("hello+world".to_string());
    assert_eq!(enc.decode(), Ok("hello world".to_string()));
}

#[test]
fn decode_triplet_uppercase() {
    let enc = URLEncoder::new("%41%2F".to_string());
    assert_eq!(enc.decode(), Ok("A/".to_string()));
}

#[test]
fn decode_triplet_lowercase() {
    let enc = URLEncoder::new("%2f%3a".to_string());
    assert_eq!(enc.decode(), Ok("/:".to_string()));
}

#[test]
fn decode_high_byte() {
    let enc = URLEncoder::new("%FF".to_string());
    assert_eq!(enc.decode(), Ok("\u{ff}".to_string()));
}

#[test]
fn decode_plain_text_unchanged() {
    let enc = URLEncoder::new("abc%20def".to_string());
    assert_eq!(enc.decode(), Ok("abc def".to_string()));
}

#[test]
fn decode_truncated_triplet_fails() {
    let enc = URLEncoder::new("%4".to_string());
    let err = enc.decode().unwrap_err();
    assert_eq!(err, DecodeError::TruncatedTriplet);
    assert_eq!(err.message(), "Invalid percent encoding");
}

#[test]
fn decode_bare_percent_at_end_fails() {
    let enc = URLEncoder::new("abc%".to_string());
    assert_eq!(enc.decode(), Err(DecodeError::TruncatedTriplet));
}

#[test]
fn decode_non_hex_triplet_fails() {
    let enc = URLEncoder::new("%GZ".to_string());
    let err = enc.decode().unwrap_err();
    assert_eq!(err, DecodeError::InvalidHex('G', 'Z'));
    assert_eq!(err.message(), "Invalid hex sequence: %GZ");
}

#[test]
fn decode_sign_is_not_a_hex_digit() {
    let enc = URLEncoder::new("%+1".to_string());
    assert_eq!(enc.decode(), Err(DecodeError::InvalidHex('+', '1')));
}

#[test]
fn round_trip_over_unreserved_and_spaces() {
    let original = "Hello World of un-reserved_text.~ again";
    let encoded = URLEncoder::new(original.to_string()).encode();
    let decoded = URLEncoder::new(encoded).decode();
    assert_eq!(decoded, Ok(original.to_string()));
}

#[test]
fn encode_of_unreserved_is_identity() {
    let original = "nothing.to-escape_here~0123456789";
    let once = URLEncoder::new(original.to_string()).encode();
    assert_eq!(once, original);
    let twice = URLEncoder::new(once.clone()).encode();
    assert_eq!(twice, once);
}
