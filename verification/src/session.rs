//! Sessions: which requests need one, how a request names it, and how a
//! user logs in.

use crate::errors::{AppError, ErrorKind};
use crate::ident::{md5_hex, password_matches};
use crate::text::{chars_of, starts_with, string_of_range};
use vstd::prelude::*;

verus! {

/// How long a session lasts without being renewed: a day.
pub const SESSION_TTL_SECS: u64 = 86400;

/// A user as the catalog holds it.
#[derive(Debug)]
pub struct UserInfo {
    pub id: i64,
    pub is_admin: bool,
    pub user_name: String,
    /// The digest of the password, as [`crate::ident::build_md5`] makes it.
    pub password: String,
    pub access_key: String,
    pub secret_key: String,
    pub create_time: String,
}

/// What a client sends to log in.
#[derive(Debug)]
pub struct LoginInfo {
    pub user_name: String,
    pub password: String,
}

/// Whether a route is open to requests without a session: the login
/// routes and the API documentation are.
pub open spec fn open_route(path: Seq<char>) -> bool {
    ||| "/swagger-ui"@.is_prefix_of(path)
    ||| "/auth"@.is_prefix_of(path)
    ||| "/api-doc/openapi"@.is_prefix_of(path)
}

/// Executable form of [`open_route`].
pub fn is_open_route(path: &str) -> (r: bool)
    ensures
        r == open_route(path@),
{
    starts_with(path, "/swagger-ui") || starts_with(path, "/auth") || starts_with(
        path,
        "/api-doc/openapi",
    )
}

/// The session token that an `Authorization` header names: what follows
/// the word `Session` and a space.
pub open spec fn token_of(header: Seq<char>) -> Option<Seq<char>> {
    if "Session "@.is_prefix_of(header) {
        Some(header.skip("Session "@.len() as int))
    } else {
        None
    }
}

/// Executable form of [`token_of`].
pub fn session_token(header: &str) -> (r: Option<String>)
    ensures
        r is Some <==> token_of(header@) is Some,
        r is Some ==> r->0@ == token_of(header@)->0,
{
    let scheme = "Session ";
    if starts_with(header, scheme) {
        let chars = chars_of(header);
        let skip = scheme.unicode_len();
        proof {
            assert(chars@.subrange(skip as int, chars@.len() as int) =~= header@.skip(skip as int));
        }
        Some(string_of_range(chars.as_slice(), skip, chars.len()))
    } else {
        None
    }
}

/// Checks a login against the user found under the name given, if any:
/// the login passes when there is such a user and the digest of the
/// password given is the one stored. Otherwise the same error is
/// returned, whichever of the two was wrong.
pub fn check_login(found: Option<&UserInfo>, login: &LoginInfo) -> (r: Result<(), AppError>)
    ensures
        r is Ok <==> found is Some && found->0.password@ == md5_hex(login.password@),
        r is Err ==> r->Err_0.kind() == ErrorKind::BizError && r->Err_0.text()
            == "username.or.password.error"@,
{
    match found {
        Some(user) => {
            if password_matches(user.password.as_str(), login.password.as_str()) {
                return Ok(());
            }
        },
        None => {},
    }
    Err(AppError::BizError(String::from_str("username.or.password.error")))
}

} // verus!
