use url_mapper::auth::{auth_error_status, validate_token, AuthError};

#[test]
fn the_right_token_is_accepted() {
    let expected = "SECRET-REDACTED".to_string();
    let encoded = base64::encode(expected.as_bytes());
    assert_eq!(validate_token(&encoded, &expected), Ok(()));
}

#[test]
fn a_wrong_token_is_refused() {
    let encoded = base64::encode("someone-else".as_bytes());
    let expected = "SECRET-REDACTED".to_string();
    assert_eq!(validate_token(&encoded, &expected), Err(AuthError::WrongToken));
}

#[test]
fn garbage_base64_is_refused() {
    let expected = "SECRET-REDACTED".to_string();
    assert_eq!(validate_token("!!!not-base64!!!", &expected), Err(AuthError::InvalidBase64));
}

#[test]
fn non_utf8_bytes_are_refused() {
    let encoded = base64::encode([0xff, 0xfe, 0xff]);
    let expected = "SECRET-REDACTED".to_string();
    assert_eq!(validate_token(&encoded, &expected), Err(AuthError::InvalidUtf8));
}

#[test]
fn only_a_wrong_token_is_unauthorized() {
    assert_eq!(auth_error_status(&AuthError::WrongToken), 401);
    assert_eq!(auth_error_status(&AuthError::InvalidBase64), 500);
    assert_eq!(auth_error_status(&AuthError::InvalidUtf8), 500);
}
