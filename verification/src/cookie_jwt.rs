//! The cookie delivery mechanism: a two-stage middleware pipeline over a
//! named, HTTP-only session cookie, and the cookie's lifecycle.
//!
//! Resolution runs for every request and only computes a resolved state — it
//! never rejects by itself, because public routes share the same router.
//! Enforcement reads that state and short-circuits protected routes.  The
//! lifecycle sets the cookie at login and clears it at logout.

use vstd::prelude::*;

use vstd::string::StrSliceExecFns;
use vstd::utf8::{decode_utf8_encode_utf8, encode_utf8, valid_utf8};

use crate::errors::{ApiResult, BackendError};
use crate::principal::{parse_user, spec_parse_user, spec_ser_user};
use crate::token::{spec_token, string_from_utf8, validate_token, VALIDITY_SECONDS};

verus! {

/// The principal identity a cookie login embeds in its claims.
#[derive(Debug, Clone, PartialEq)]
pub struct User {
    pub user_id: String,
}

/// The claims carried by the session cookie: same shape as the bearer claims.
#[derive(Debug, Clone, PartialEq)]
pub struct CookieJWTClaims {
    pub data: String,
    pub exp: u64,
    pub iat: u64,
}

/// Reads the principal back out of validated claims; a signature-valid
/// payload of the wrong shape is an internal error, not a token error.
pub fn deserialize_cookie_claims(claims: CookieJWTClaims) -> (r: ApiResult<User>)
    ensures
        spec_parse_user(encode_utf8(claims.data@)) is None ==> r == Err::<
            User,
            BackendError,
        >(BackendError::SomethingWentWrong),
        (spec_parse_user(encode_utf8(claims.data@)) is Some && !valid_utf8(
            spec_parse_user(encode_utf8(claims.data@))->Some_0,
        )) ==> r == Err::<User, BackendError>(BackendError::SomethingWentWrong),
        (spec_parse_user(encode_utf8(claims.data@)) is Some && valid_utf8(
            spec_parse_user(encode_utf8(claims.data@))->Some_0,
        )) ==> (r matches Ok(u) && encode_utf8(u.user_id@) == spec_parse_user(
            encode_utf8(claims.data@),
        )->Some_0),
        r matches Ok(u) ==> encode_utf8(claims.data@) == spec_ser_user(encode_utf8(u.user_id@)),
{
    let db = claims.data.as_str().as_bytes_vec();
    match parse_user(&db) {
        None => Err(BackendError::SomethingWentWrong),
        Some(uidb) => {
            let ghost uv = uidb@;
            proof {
                crate::principal::lemma_ser_of_parse_user(db@);
                if valid_utf8(uv) {
                    decode_utf8_encode_utf8(uv);
                }
            }
            match string_from_utf8(uidb) {
                None => Err(BackendError::SomethingWentWrong),
                Some(u) => Ok(User { user_id: u }),
            }
        },
    }
}

/// The resolution stage.  It runs unconditionally and never rejects the
/// request: for every input it returns a resolved state — claims on success,
/// `NoCookieFound` when the cookie is absent, `InvalidToken` otherwise — and
/// the caller stashes that state in the request's context and continues.
pub fn cookie_jwt_bearer_resolver(cookie_value: Option<&String>, secret: &Vec<u8>, now: u64) -> (r:
    ApiResult<CookieJWTClaims>)
    ensures
        cookie_value is None ==> r == Err::<CookieJWTClaims, BackendError>(
            BackendError::NoCookieFound,
        ),
        cookie_value is Some ==> (r matches Err(e) ==> e == BackendError::InvalidToken),
        r matches Ok(c) ==> (cookie_value matches Some(v) && encode_utf8(v@) == spec_token(
            encode_utf8(c.data@),
            c.iat,
            c.exp,
            secret@,
        ) && c.exp >= now),
        forall|d: Seq<u8>, i: u64, e: u64|
            (cookie_value matches Some(v) && encode_utf8(v@) == #[trigger] spec_token(
                d,
                i,
                e,
                secret@,
            ) && e >= now && valid_utf8(d)) ==> (r matches Ok(c) && encode_utf8(c.data@) == d
                && c.exp == e && c.iat == i),
{
    let v = match cookie_value {
        None => {
            return Err(BackendError::NoCookieFound);
        },
        Some(v) => v,
    };
    let tb = v.as_str().as_bytes_vec();
    let validated = match validate_token(&tb, secret, now) {
        Err(_) => {
            return Err(BackendError::InvalidToken);
        },
        Ok(validated) => validated,
    };
    let data_bytes = validated.0;
    let exp = validated.1;
    let iat = validated.2;
    let ghost dv = data_bytes@;
    proof {
        if valid_utf8(dv) {
            decode_utf8_encode_utf8(dv);
        }
    }
    match string_from_utf8(data_bytes) {
        None => Err(BackendError::InvalidToken),
        Some(data) => Ok(CookieJWTClaims { data, exp, iat }),
    }
}

/// The enforcement stage.  It reads the stashed resolved state and decides:
/// pass the request through exactly when resolution succeeded, otherwise
/// short-circuit with that failure's own error kind.
pub fn cookie_jwt_bearer_auth(ctx: &ApiResult<CookieJWTClaims>) -> (r: ApiResult<()>)
    ensures
        (*ctx) is Ok <==> r is Ok,
        (*ctx) matches Err(e) ==> r == Err::<(), BackendError>(e),
{
    match ctx {
        Ok(_) => Ok(()),
        Err(e) => Err(*e),
    }
}

impl CookieJWTClaims {
    /// The handler-side extraction contract: read the stashed resolved state
    /// out of the request's context.  A missing stash (resolution never ran)
    /// reads as an absent cookie; otherwise the stashed outcome is returned
    /// as it stands.
    pub fn from_request_parts(ext: Option<&ApiResult<CookieJWTClaims>>) -> (r: ApiResult<
        CookieJWTClaims,
    >)
        ensures
            ext is None ==> r == Err::<CookieJWTClaims, BackendError>(BackendError::NoCookieFound),
            ext matches Some(st) ==> r == *st,
    {
        match ext {
            None => Err(BackendError::NoCookieFound),
            Some(st) => match st {
                Ok(c) => Ok(CookieJWTClaims { data: c.data.clone(), exp: c.exp, iat: c.iat }),
                Err(e) => Err(*e),
            },
        }
    }
}

/// The session cookie as the library describes it: a name, a value, the
/// HTTP-only flag, a path, and an absolute expiry in seconds since the epoch.
/// The HTTP layer turns this description into a `Set-Cookie` header.
#[derive(Debug, Clone, PartialEq)]
pub struct SessionCookie {
    pub name: String,
    pub value: String,
    pub http_only: bool,
    pub path: String,
    pub expires_at: u64,
}

/// The cleared cookie that ends a session at time `now`: empty value, expiry
/// already elapsed, same name, HTTP-only, path `/`.
pub open spec fn spec_cleared_cookie(c: SessionCookie, name: Seq<char>, now: u64) -> bool {
    c.name@ == name && c.value@ == Seq::<char>::empty() && c.http_only && c.path@ == "/"@
        && c.expires_at == now
}

/// Starts a cookie session: issues the bearer token for the principal, and
/// describes the session cookie to set — HTTP-only, path `/`, expiring with
/// the claims, its value the token itself.  The token is also returned so
/// the login response body can mirror the cookie value.
pub fn encode_cookie_jwt_bearer_claims(data: &User, now: u64, secret: &Vec<u8>, cookie_name: &str)
    -> (r: ApiResult<(String, SessionCookie)>)
    requires
        now + VALIDITY_SECONDS <= u64::MAX,
    ensures
        r is Ok,
        r matches Ok(tc) ==> encode_utf8(tc.0@) == spec_token(
            spec_ser_user(encode_utf8(data.user_id@)),
            now,
            (now + VALIDITY_SECONDS) as u64,
            secret@,
        ),
        r matches Ok(tc) ==> (tc.1.name@ == cookie_name@ && tc.1.value@ == tc.0@ && tc.1.http_only
            && tc.1.path@ == "/"@ && tc.1.expires_at == now + VALIDITY_SECONDS),
{
    let user = crate::bearer_jwt::User { user_id: data.user_id.clone() };
    let token = match crate::bearer_jwt::encode_required_jwt_bearer_claims(&user, now, secret) {
        Err(e) => {
            return Err(e);
        },
        Ok(token) => token,
    };
    let cookie = SessionCookie {
        name: cookie_name.to_owned(),
        value: token.clone(),
        http_only: true,
        path: "/".to_owned(),
        expires_at: now + VALIDITY_SECONDS,
    };
    Ok((token, cookie))
}

/// Ends the session at time `now`: the returned cookie overwrites the session
/// cookie with an empty value and an already-elapsed expiry, so the client
/// drops it immediately.
pub fn remove_cookie_jwt_bearer_claims(cookie_name: &str, now: u64) -> (r: SessionCookie)
    ensures
        spec_cleared_cookie(r, cookie_name@, now),
{
    SessionCookie {
        name: cookie_name.to_owned(),
        value: String::new(),
        http_only: true,
        path: "/".to_owned(),
        expires_at: now,
    }
}

/// Ending a session is idempotent: any two cleared cookies for the same name
/// and time are the same cookie, field for field — so clearing twice in a row
/// produces the same state both times.
pub proof fn lemma_end_session_idempotent(a: SessionCookie, b: SessionCookie, name: Seq<char>, now: u64)
    requires
        spec_cleared_cookie(a, name, now),
        spec_cleared_cookie(b, name, now),
    ensures
        a.name@ == b.name@,
        a.value@ == b.value@,
        a.http_only == b.http_only,
        a.path@ == b.path@,
        a.expires_at == b.expires_at,
{
}

/// The logout step: clears the session cookie and reports the fixed
/// disconnect message.  It succeeds for every input.
pub fn logout_cookie(cookie_name: &str, now: u64) -> (r: (SessionCookie, String))
    ensures
        spec_cleared_cookie(r.0, cookie_name@, now),
        r.1@ == "You're now disconnected"@,
{
    let cookie = remove_cookie_jwt_bearer_claims(cookie_name, now);
    (cookie, "You're now disconnected".to_owned())
}

} // verus!
