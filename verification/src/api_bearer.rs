//! The bearer endpoints' decisions: login over the directory's answer, and
//! the protected page's content.  The HTTP layer supplies the query result,
//! the clock and the secret, and turns the results into responses.

use vstd::prelude::*;

use vstd::string::StringExecFns;
use vstd::utf8::{decode_utf8, encode_utf8, encode_utf8_decode_utf8, valid_utf8};

use crate::api::ResponseBearer;
use crate::bearer_jwt::{
    deserialize_bearer_claims, encode_required_jwt_bearer_claims, BearerJWTClaims, User,
};
use crate::db::DBErrors;
use crate::errors::{ApiResult, BackendError};
use crate::login::{login_decision, spec_credentials_match, LoginPayload, UserRecord};
use crate::principal::{spec_parse_user, spec_ser_user};
use crate::token::{spec_token, VALIDITY_SECONDS};

verus! {

/// The bearer login: a failed directory query is an internal failure; no
/// matching record is `InvalidCredentials`; a match has a token issued for
/// the matched principal and returned in the response body.
pub fn api_login_cookie_jwt(
    query: Result<Vec<UserRecord>, DBErrors>,
    payload: &LoginPayload,
    now: u64,
    secret: &Vec<u8>,
) -> (r: ApiResult<ResponseBearer>)
    requires
        now + VALIDITY_SECONDS <= u64::MAX,
    ensures
        query is Err ==> r == Err::<ResponseBearer, BackendError>(BackendError::SomethingWentWrong),
        (query is Ok && query->Ok_0@.len() == 0) ==> r == Err::<ResponseBearer, BackendError>(
            BackendError::InvalidCredentials,
        ),
        (query is Ok && query->Ok_0@.len() > 0 && !spec_credentials_match(
            query->Ok_0@[0],
            payload.username@,
            payload.password@,
        )) ==> r == Err::<ResponseBearer, BackendError>(BackendError::InvalidCredentials),
        (query is Ok && query->Ok_0@.len() > 0 && spec_credentials_match(
            query->Ok_0@[0],
            payload.username@,
            payload.password@,
        )) ==> (r is Ok && encode_utf8(r->Ok_0.bearer@) == spec_token(
            spec_ser_user(encode_utf8(query->Ok_0@[0].user_id@)),
            now,
            (now + VALIDITY_SECONDS) as u64,
            secret@,
        )),
{
    let records = match query {
        Err(_) => {
            return Err(BackendError::SomethingWentWrong);
        },
        Ok(records) => records,
    };
    let user_id = match login_decision(&records, payload) {
        Err(e) => {
            return Err(e);
        },
        Ok(user_id) => user_id,
    };
    let user = User { user_id };
    let bearer = match encode_required_jwt_bearer_claims(&user, now, secret) {
        Err(e) => {
            return Err(e);
        },
        Ok(bearer) => bearer,
    };
    Ok(ResponseBearer { bearer })
}

/// The protected bearer page's content, computed from extracted claims: the
/// fixed text around the caller's own identifier.
pub fn protected_bearer_content(bearer: BearerJWTClaims) -> (r: ApiResult<String>)
    ensures
        (spec_parse_user(encode_utf8(bearer.data@)) is None || !valid_utf8(
            spec_parse_user(encode_utf8(bearer.data@))->Some_0,
        )) ==> r == Err::<String, BackendError>(BackendError::SomethingWentWrong),
        (spec_parse_user(encode_utf8(bearer.data@)) is Some && valid_utf8(
            spec_parse_user(encode_utf8(bearer.data@))->Some_0,
        )) ==> (r is Ok && r->Ok_0@ == "nice secret page here! Oh btw your user id is: `"@
            + decode_utf8(spec_parse_user(encode_utf8(bearer.data@))->Some_0) + "`"@),
{
    let user = match deserialize_bearer_claims(bearer) {
        Err(e) => {
            return Err(e);
        },
        Ok(user) => user,
    };
    proof {
        encode_utf8_decode_utf8(user.user_id@);
    }
    let message = String::from_str("nice secret page here! Oh btw your user id is: `").concat(
        user.user_id.as_str(),
    ).concat("`");
    Ok(message)
}

} // verus!
