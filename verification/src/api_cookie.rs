//! The cookie endpoints' decisions: login over the directory's answer —
//! which both sets the session cookie and mirrors the token in the response
//! body — and the protected page's content.

use vstd::prelude::*;

use vstd::string::StringExecFns;
use vstd::utf8::{decode_utf8, encode_utf8, encode_utf8_decode_utf8, valid_utf8};

use crate::api::ResponseBearer;
use crate::cookie_jwt::{
    deserialize_cookie_claims, encode_cookie_jwt_bearer_claims, CookieJWTClaims, SessionCookie,
    User,
};
use crate::db::DBErrors;
use crate::errors::{ApiResult, BackendError};
use crate::login::{login_decision, spec_credentials_match, LoginPayload, UserRecord};
use crate::principal::{spec_parse_user, spec_ser_user};
use crate::token::{spec_token, VALIDITY_SECONDS};

verus! {

/// The cookie login: the same decision as the bearer login, and on success
/// the session cookie to set, whose value the response body mirrors.
pub fn api_login_cookie_jwt(
    query: Result<Vec<UserRecord>, DBErrors>,
    payload: &LoginPayload,
    now: u64,
    secret: &Vec<u8>,
    cookie_name: &str,
) -> (r: ApiResult<(ResponseBearer, SessionCookie)>)
    requires
        now + VALIDITY_SECONDS <= u64::MAX,
    ensures
        query is Err ==> r == Err::<(ResponseBearer, SessionCookie), BackendError>(
            BackendError::SomethingWentWrong,
        ),
        (query is Ok && query->Ok_0@.len() == 0) ==> r == Err::<
            (ResponseBearer, SessionCookie),
            BackendError,
        >(BackendError::InvalidCredentials),
        (query is Ok && query->Ok_0@.len() > 0 && !spec_credentials_match(
            query->Ok_0@[0],
            payload.username@,
            payload.password@,
        )) ==> r == Err::<(ResponseBearer, SessionCookie), BackendError>(
            BackendError::InvalidCredentials,
        ),
        (query is Ok && query->Ok_0@.len() > 0 && spec_credentials_match(
            query->Ok_0@[0],
            payload.username@,
            payload.password@,
        )) ==> (r is Ok && encode_utf8(r->Ok_0.0.bearer@) == spec_token(
            spec_ser_user(encode_utf8(query->Ok_0@[0].user_id@)),
            now,
            (now + VALIDITY_SECONDS) as u64,
            secret@,
        ) && r->Ok_0.1.value@ == r->Ok_0.0.bearer@ && r->Ok_0.1.name@ == cookie_name@
            && r->Ok_0.1.http_only && r->Ok_0.1.path@ == "/"@ && r->Ok_0.1.expires_at == now
            + VALIDITY_SECONDS),
{
    let records = match query {
        Err(_) => {
            return Err(BackendError::SomethingWentWrong);
        },
        Ok(records) => records,
    };
    let user_id = match login_decision(&records, payload) {
        Err(e) => {
            return Err(e);
        },
        Ok(user_id) => user_id,
    };
    let user = User { user_id };
    let issued = match encode_cookie_jwt_bearer_claims(&user, now, secret, cookie_name) {
        Err(e) => {
            return Err(e);
        },
        Ok(issued) => issued,
    };
    Ok((ResponseBearer { bearer: issued.0 }, issued.1))
}

/// The protected cookie page's content, computed from extracted claims.
pub fn protected_cookie_content(session: CookieJWTClaims) -> (r: ApiResult<String>)
    ensures
        (spec_parse_user(encode_utf8(session.data@)) is None || !valid_utf8(
            spec_parse_user(encode_utf8(session.data@))->Some_0,
        )) ==> r == Err::<String, BackendError>(BackendError::SomethingWentWrong),
        (spec_parse_user(encode_utf8(session.data@)) is Some && valid_utf8(
            spec_parse_user(encode_utf8(session.data@))->Some_0,
        )) ==> (r is Ok && r->Ok_0@ == "nice secret page here! Oh btw your user id is: `"@
            + decode_utf8(spec_parse_user(encode_utf8(session.data@))->Some_0) + "`"@),
{
    let claims = match deserialize_cookie_claims(session) {
        Err(e) => {
            return Err(e);
        },
        Ok(claims) => claims,
    };
    proof {
        encode_utf8_decode_utf8(claims.user_id@);
    }
    let message = String::from_str("nice secret page here! Oh btw your user id is: `").concat(
        claims.user_id.as_str(),
    ).concat("`");
    Ok(message)
}

} // verus!
