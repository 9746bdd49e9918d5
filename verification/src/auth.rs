//! Bearer-token validation: a presented token is base64-decoded, read as
//! UTF-8, and compared against the configured token.

use vstd::prelude::*;

verus! {

/// Why a presented token was refused.
#[derive(Debug, Clone, Copy, PartialEq, Eq, Structural)]
pub enum AuthError {
    /// The token is not valid base64.
    InvalidBase64,
    /// The decoded bytes are not valid UTF-8.
    InvalidUtf8,
    /// The decoded token is not the configured one.
    WrongToken,
}

/// The bytes a base64 decode of `s` yields, if it yields any.
pub uninterp spec fn base64_decoded(s: Seq<char>) -> Option<Seq<u8>>;

/// Relies on base64::decode (standard alphabet, with padding): whether the
/// input decodes, and to which bytes, is a function of the input alone.
#[verifier::external_body]
fn decode_base64(token: &str) -> (r: Option<Vec<u8>>)
    ensures
        (match r {
            Some(bs) => base64_decoded(token@) == Some(bs@),
            None => base64_decoded(token@) is None,
        }),
{
    base64::decode(token).ok()
}

/// Relies on String::from_utf8: it succeeds exactly on valid UTF-8, and
/// decodes it to the characters vstd's UTF-8 specification gives.
#[verifier::external_body]
fn string_from_utf8(bytes: Vec<u8>) -> (r: Option<String>)
    ensures
        (r matches Some(s) ==> vstd::utf8::valid_utf8(bytes@)
            && s@ == vstd::utf8::decode_utf8(bytes@)),
        (r is None ==> !vstd::utf8::valid_utf8(bytes@)),
{
    String::from_utf8(bytes).ok()
}

/// The exact outcome of validating `token` against `expected`: each failing
/// stage its own error, acceptance exactly when the token decodes to the
/// expected characters.
pub open spec fn validate_outcome(token: Seq<char>, expected: Seq<char>) -> Result<
    (),
    AuthError,
> {
    match base64_decoded(token) {
        None => Err(AuthError::InvalidBase64),
        Some(bs) => if !vstd::utf8::valid_utf8(bs) {
            Err(AuthError::InvalidUtf8)
        } else if vstd::utf8::decode_utf8(bs) == expected {
            Ok(())
        } else {
            Err(AuthError::WrongToken)
        },
    }
}

/// Validates a presented token: base64-decode it, read the bytes as UTF-8,
/// and accept exactly when the result is the expected token.
pub fn validate_token(encoded_token: &str, expected: &String) -> (r: Result<(), AuthError>)
    ensures
        r == validate_outcome(encoded_token@, expected@),
{
    let bytes = match decode_base64(encoded_token) {
        Some(bytes) => bytes,
        None => {
            return Err(AuthError::InvalidBase64);
        },
    };
    let token = match string_from_utf8(bytes) {
        Some(token) => token,
        None => {
            return Err(AuthError::InvalidUtf8);
        },
    };
    if token == *expected {
        Ok(())
    } else {
        Err(AuthError::WrongToken)
    }
}

/// The status an authentication failure is answered with: a wrong token is
/// refused as unauthorized; a token that could not even be read is a server
/// fault.
pub open spec fn spec_auth_error_status(e: AuthError) -> u16 {
    match e {
        AuthError::WrongToken => 401,
        AuthError::InvalidBase64 => 500,
        AuthError::InvalidUtf8 => 500,
    }
}

/// The HTTP status for an authentication failure, per
/// [`spec_auth_error_status`].
pub fn auth_error_status(e: &AuthError) -> (s: u16)
    ensures
        s == spec_auth_error_status(*e),
{
    match e {
        AuthError::WrongToken => 401,
        AuthError::InvalidBase64 => 500,
        AuthError::InvalidUtf8 => 500,
    }
}

} // verus!
