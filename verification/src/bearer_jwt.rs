//! The bearer delivery mechanism: claims issued into a token returned in the
//! login response body, and an extraction contract that reads them back from
//! an `Authorization: Bearer` header.  No side effects and no cookies: every
//! request is validated inline.

use vstd::prelude::*;

use vstd::string::StrSliceExecFns;
use vstd::utf8::{decode_utf8_encode_utf8, encode_utf8, valid_utf8};

use crate::claims::vec_eq;
use crate::errors::{ApiResult, BackendError};
use crate::principal::{parse_user, ser_user, spec_parse_user, spec_ser_user};
use crate::textform::sub_vec;
use crate::token::{
    issue_token, lemma_ascii_valid_utf8, spec_token, string_from_utf8, validate_token,
    VALIDITY_SECONDS,
};

verus! {

/// The principal identity a bearer login embeds in its claims.
#[derive(Debug, Clone, PartialEq)]
pub struct User {
    pub user_id: String,
}

/// The claims carried by a bearer token: an opaque serialized payload and a
/// validity window in seconds since the epoch.
#[derive(Debug, Clone, PartialEq)]
pub struct BearerJWTClaims {
    pub data: String,
    pub exp: u64,
    pub iat: u64,
}

/// The bytes of the header scheme prefix `Bearer `.
pub open spec fn spec_bearer_prefix() -> Seq<u8> {
    seq![66u8, 101, 97, 114, 101, 114, 32]
}

pub fn bearer_prefix_vec() -> (r: Vec<u8>)
    ensures
        r@ == spec_bearer_prefix(),
{
    let mut v: Vec<u8> = Vec::new();
    v.push(66);
    v.push(101);
    v.push(97);
    v.push(114);
    v.push(101);
    v.push(114);
    v.push(32);
    assert(v@ =~= spec_bearer_prefix());
    v
}

/// Issues the bearer token for a principal: `iat = now`, `exp = now + 24h`,
/// signed under `secret`.  Issuance never fails.
pub fn encode_required_jwt_bearer_claims(data: &User, now: u64, secret: &Vec<u8>) -> (r: ApiResult<
    String,
>)
    requires
        now + VALIDITY_SECONDS <= u64::MAX,
    ensures
        r is Ok,
        r matches Ok(t) ==> encode_utf8(t@) == spec_token(
            spec_ser_user(encode_utf8(data.user_id@)),
            now,
            (now + VALIDITY_SECONDS) as u64,
            secret@,
        ),
{
    let uid_bytes = data.user_id.as_str().as_bytes_vec();
    let user_json = ser_user(&uid_bytes);
    let token_bytes = issue_token(&user_json, now, secret);
    let ghost tb = token_bytes@;
    proof {
        lemma_ascii_valid_utf8(tb);
        decode_utf8_encode_utf8(tb);
    }
    match string_from_utf8(token_bytes) {
        Some(t) => Ok(t),
        None => {
            proof {
                assert(false);
            }
            Err(BackendError::JWTEncodingFailed)
        },
    }
}

/// Reads the principal back out of validated claims.  A signature-valid token
/// whose payload does not have the expected shape is an application bug, not
/// a forged token, so the failure is the opaque internal kind.
pub fn deserialize_bearer_claims(claims: BearerJWTClaims) -> (r: ApiResult<User>)
    ensures
        spec_parse_user(encode_utf8(claims.data@)) is None ==> r == Err::<
            User,
            BackendError,
        >(BackendError::SomethingWentWrong),
        (spec_parse_user(encode_utf8(claims.data@)) is Some && !valid_utf8(
            spec_parse_user(encode_utf8(claims.data@))->Some_0,
        )) ==> r == Err::<User, BackendError>(BackendError::SomethingWentWrong),
        (spec_parse_user(encode_utf8(claims.data@)) is Some && valid_utf8(
            spec_parse_user(encode_utf8(claims.data@))->Some_0,
        )) ==> (r matches Ok(u) && encode_utf8(u.user_id@) == spec_parse_user(
            encode_utf8(claims.data@),
        )->Some_0),
        r matches Ok(u) ==> encode_utf8(claims.data@) == spec_ser_user(encode_utf8(u.user_id@)),
{
    let db = claims.data.as_str().as_bytes_vec();
    match parse_user(&db) {
        None => Err(BackendError::SomethingWentWrong),
        Some(uidb) => {
            let ghost uv = uidb@;
            proof {
                crate::principal::lemma_ser_of_parse_user(db@);
                if valid_utf8(uv) {
                    decode_utf8_encode_utf8(uv);
                }
            }
            match string_from_utf8(uidb) {
                None => Err(BackendError::SomethingWentWrong),
                Some(u) => Ok(User { user_id: u }),
            }
        },
    }
}

impl BearerJWTClaims {
    /// The per-request bearer extraction contract: read the `Authorization`
    /// header value, require the `Bearer ` scheme, validate the token under
    /// `secret` at time `now`, and return the claims.  Every failure is
    /// `InvalidToken`.
    pub fn from_request_parts(header: Option<&String>, secret: &Vec<u8>, now: u64) -> (r:
        ApiResult<BearerJWTClaims>)
        ensures
            header is None ==> r == Err::<BearerJWTClaims, BackendError>(
                BackendError::InvalidToken,
            ),
            r matches Err(e) ==> e == BackendError::InvalidToken,
            r matches Ok(c) ==> (header matches Some(h) && encode_utf8(h@).len() >= 7
                && encode_utf8(h@).subrange(0, 7) == spec_bearer_prefix() && encode_utf8(
                h@,
            ).subrange(7, encode_utf8(h@).len() as int) == spec_token(
                encode_utf8(c.data@),
                c.iat,
                c.exp,
                secret@,
            ) && c.exp >= now),
            forall|d: Seq<u8>, i: u64, e: u64|
                (header matches Some(h) && encode_utf8(h@) == spec_bearer_prefix()
                    + #[trigger] spec_token(d, i, e, secret@) && e >= now && valid_utf8(d)) ==> (
                r matches Ok(c) && encode_utf8(c.data@) == d && c.exp == e && c.iat == i),
    {
        let h = match header {
            None => {
                return Err(BackendError::InvalidToken);
            },
            Some(h) => h,
        };
        let hb = h.as_str().as_bytes_vec();
        let ghost hv = hb@;
        if hb.len() < 7 {
            proof {
                assert forall|d: Seq<u8>, i: u64, e: u64|
                    hv == spec_bearer_prefix() + #[trigger] spec_token(
                        d,
                        i,
                        e,
                        secret@,
                    ) implies false by {
                    assert(hv.len() >= 7);
                }
            }
            return Err(BackendError::InvalidToken);
        }
        let prefix = bearer_prefix_vec();
        let head = sub_vec(&hb, 0, 7);
        if !vec_eq(&head, &prefix) {
            proof {
                assert forall|d: Seq<u8>, i: u64, e: u64|
                    hv == spec_bearer_prefix() + #[trigger] spec_token(
                        d,
                        i,
                        e,
                        secret@,
                    ) implies false by {
                    assert(hv.subrange(0, 7) =~= spec_bearer_prefix());
                }
            }
            return Err(BackendError::InvalidToken);
        }
        let tb = sub_vec(&hb, 7, hb.len());
        proof {
            assert forall|d: Seq<u8>, i: u64, e: u64|
                hv == spec_bearer_prefix() + #[trigger] spec_token(d, i, e, secret@) implies tb@
                == spec_token(d, i, e, secret@) by {
                assert(tb@ =~= spec_token(d, i, e, secret@));
            }
        }
        let validated = match validate_token(&tb, secret, now) {
            Err(_) => {
                return Err(BackendError::InvalidToken);
            },
            Ok(v) => v,
        };
        let data_bytes = validated.0;
        let exp = validated.1;
        let iat = validated.2;
        let ghost dv = data_bytes@;
        proof {
            if valid_utf8(dv) {
                decode_utf8_encode_utf8(dv);
            }
        }
        match string_from_utf8(data_bytes) {
            None => Err(BackendError::InvalidToken),
            Some(data) => Ok(BearerJWTClaims { data, exp, iat }),
        }
    }
}

} // verus!
