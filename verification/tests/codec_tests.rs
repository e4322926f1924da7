use hamster_auth::authentication::Authentication;
use hamster_auth::codec::{decode, encode};
use hamster_auth::error::DecodeError;

fn ident(subject: &str, authorities: &[&str]) -> Authentication {
    Authentication::new(
        subject.to_string(),
        authorities.iter().map(|s| s.to_string()).collect(),
    )
}

#[test]
fn test_encode_exact_format() {
    let a = ident("u1", &["user"]);
    assert_eq!(encode(&a), "2:u11;4:user");
}

#[test]
fn test_encode_exact_format_empty_authorities() {
    let a = ident("u1", &[]);
    assert_eq!(encode(&a), "2:u10;");
}

#[test]
fn test_round_trip_simple() {
    let a = ident("u1", &["user"]);
    let b = decode(&encode(&a)).unwrap();
    assert_eq!(a, b);
}

#[test]
fn test_round_trip_many_authorities() {
    let a = ident("some-user-id", &["admin", "user", "auditor", ""]);
    let b = decode(&encode(&a)).unwrap();
    assert_eq!(a, b);
}

#[test]
fn test_round_trip_unicode() {
    let a = ident("b\u{00e9}b\u{00e9}\u{4e16}\u{754c}", &["r\u{00f4}le"]);
    let b = decode(&encode(&a)).unwrap();
    assert_eq!(a, b);
}

#[test]
fn test_round_trip_separator_characters_in_fields() {
    let a = ident("u:1;2:x", &["g:1;", ";;::"]);
    let b = decode(&encode(&a)).unwrap();
    assert_eq!(a, b);
}

#[test]
fn test_decode_rejects_empty() {
    assert_eq!(decode("").unwrap_err(), DecodeError::Malformed);
}

#[test]
fn test_decode_rejects_garbage() {
    assert_eq!(decode("not a payload").unwrap_err(), DecodeError::Malformed);
}

#[test]
fn test_decode_rejects_truncated() {
    let a = ident("u1", &["user"]);
    let mut s = encode(&a);
    s.pop();
    assert_eq!(decode(&s).unwrap_err(), DecodeError::Malformed);
}

#[test]
fn test_decode_rejects_trailing_input() {
    let a = ident("u1", &["user"]);
    let mut s = encode(&a);
    s.push('x');
    assert_eq!(decode(&s).unwrap_err(), DecodeError::Malformed);
}

#[test]
fn test_decode_rejects_empty_subject() {
    assert_eq!(decode("0:0;").unwrap_err(), DecodeError::Malformed);
}

#[test]
fn test_decode_rejects_duplicate_authorities() {
    assert_eq!(decode("2:u12;4:user4:user").unwrap_err(), DecodeError::Malformed);
}

#[test]
fn test_decode_rejects_oversized_length_field() {
    assert_eq!(decode("99999999999999999999:u1").unwrap_err(), DecodeError::Malformed);
    assert_eq!(decode("2:u199999999999999999999;").unwrap_err(), DecodeError::Malformed);
}

#[test]
fn test_decode_exact_value() {
    let b = decode("2:u12;4:user5:admin").unwrap();
    assert_eq!(b.identity(), "u1");
    assert_eq!(b.authorities, vec!["user".to_string(), "admin".to_string()]);
}

#[test]
fn test_new_deduplicates_authorities() {
    let a = ident("u1", &["user", "admin", "user"]);
    assert_eq!(a.authorities, vec!["user".to_string(), "admin".to_string()]);
}

#[test]
fn test_anonymous_sentinel() {
    let a = Authentication::anonymous();
    assert_eq!(a.identity(), "anonymous");
    assert_eq!(a.authorities, vec!["anonymous".to_string()]);
}
