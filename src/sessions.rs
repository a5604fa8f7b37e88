//! Login and session tokens.
use crate::errors::{Error, ErrorCode};
use crate::models::CreateSessionResponse;
use vstd::prelude::*;

verus! {

#[verifier::external_type_specification]
#[verifier::external_body]
pub struct ExBcryptError(bcrypt::BcryptError);

/// What `bcrypt::verify` reports for a password and a stored hash: `Some`
/// with whether they match when the hash parses, `None` when it is rejected.
pub uninterp spec fn bcrypt_verdict(password: Seq<char>, hash: Seq<char>) -> Option<bool>;

/// Relies on `bcrypt::verify`: it parses the stored hash, hashes the password
/// with the hash's cost and salt and compares; the outcome depends on the two
/// texts alone.
#[verifier::external_body]
fn bcrypt_verify(password: &str, hash: &str) -> (r: Result<bool, bcrypt::BcryptError>)
    ensures
        match r {
            Ok(b) => bcrypt_verdict(password@, hash@) == Some(b),
            Err(_) => bcrypt_verdict(password@, hash@) is None,
        },
{
    bcrypt::verify(password, hash)
}

pub open spec fn is_lower_hex(c: char) -> bool {
    ('0' <= c && c <= '9') || ('a' <= c && c <= 'f')
}

/// The text of a random (version 4, RFC 4122 variant) UUID: lower-case hex
/// digits in groups of 8-4-4-4-12 joined by hyphens, with `4` as the version
/// digit (position 14) and one of `8`, `9`, `a`, `b` as the variant digit
/// (position 19).
pub open spec fn is_v4_uuid_text(s: Seq<char>) -> bool {
    &&& s.len() == 36
    &&& forall|i: int|
        0 <= i < 36 ==> if i == 8 || i == 13 || i == 18 || i == 23 {
            s[i] == '-'
        } else {
            is_lower_hex(#[trigger] s[i])
        }
    &&& s[14] == '4'
    &&& (s[19] == '8' || s[19] == '9' || s[19] == 'a' || s[19] == 'b')
}

/// Relies on `uuid::Uuid::new_v4`, which sets the version bits to 4 and the
/// variant bits to `10` over random bits, and on the `Display` form of a
/// UUID, the lower-case hyphenated one.
#[verifier::external_body]
fn new_uuid_string() -> (r: String)
    ensures
        is_v4_uuid_text(r@),
{
    uuid::Uuid::new_v4().to_string()
}

/// The user a login attempt authenticates, given the account found under the
/// name (its id and stored bcrypt hash) and the password's md5 digest: the
/// user when the password matches, nobody when the account is missing or the
/// password does not match, and an error when the stored hash is unusable.
pub fn check_login(account: Option<(i32, String)>, password_md5: &str) -> (r: Result<
    Option<i32>,
    Error,
>)
    ensures
        match account {
            None => r matches Ok(None),
            Some((user_id, hash)) => match bcrypt_verdict(password_md5@, hash@) {
                Some(true) => r matches Ok(Some(u)) && u == user_id,
                Some(false) => r matches Ok(None),
                None => r matches Err(e) && e.error_code == ErrorCode::InternalServerError,
            },
        },
{
    match account {
        None => Ok(None),
        Some((user_id, hash)) => match bcrypt_verify(password_md5, hash.as_str()) {
            Ok(true) => Ok(Some(user_id)),
            Ok(false) => Ok(None),
            Err(_) => Err(Error::new(ErrorCode::InternalServerError, "Failed to verify password")),
        },
    }
}

/// A user's session token: the one already stored for them, else a fresh
/// random version-4 UUID. The flag tells whether the token is fresh and must
/// be stored.
pub fn resolve_session_token(existing: Option<String>) -> (r: (String, bool))
    ensures
        match existing {
            Some(t) => r.0 == t && !r.1,
            None => is_v4_uuid_text(r.0@) && r.1,
        },
{
    match existing {
        Some(t) => (t, false),
        None => (new_uuid_string(), true),
    }
}

/// The answer to a login: the user and token on success, neither otherwise.
pub fn session_response(login: Option<(i32, String)>) -> (r: CreateSessionResponse)
    ensures
        match login {
            Some((user_id, token)) => r.success && r.user_id == Some(user_id) && r.session_token
                == Some(token),
            None => !r.success && r.user_id is None && r.session_token is None,
        },
{
    match login {
        Some((user_id, token)) => CreateSessionResponse {
            success: true,
            user_id: Some(user_id),
            session_token: Some(token),
        },
        None => CreateSessionResponse { success: false, user_id: None, session_token: None },
    }
}

} // verus!
