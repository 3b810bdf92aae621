//! The login decision: given what the credential directory returned for a
//! supplied username/password pair, decide between a matched principal and
//! `InvalidCredentials`.  The directory itself is an external collaborator;
//! this module only decides over its result.

use vstd::prelude::*;

use crate::errors::{ApiResult, BackendError};

verus! {

/// A record as the credential directory returns it: the principal identifier
/// and the stored credential pair.
#[derive(Debug, Clone, PartialEq)]
pub struct UserRecord {
    pub user_id: String,
    pub username: String,
    pub password: String,
}

/// A login request body: a transient credential pair, consumed once.
#[derive(Debug, Clone, PartialEq)]
pub struct LoginPayload {
    pub username: String,
    pub password: String,
}

/// A record matches a supplied pair when each field equals its own
/// counterpart exactly.
pub open spec fn spec_credentials_match(
    rec: UserRecord,
    username: Seq<char>,
    password: Seq<char>,
) -> bool {
    rec.username@ == username && rec.password@ == password
}

/// Decides a login over the records the directory returned: no record, or a
/// first record that does not match both fields, is `InvalidCredentials`;
/// otherwise the matched principal's identifier is returned.
pub fn login_decision(records: &Vec<UserRecord>, payload: &LoginPayload) -> (r: ApiResult<String>)
    ensures
        records@.len() == 0 ==> r == Err::<String, BackendError>(BackendError::InvalidCredentials),
        (records@.len() > 0 && spec_credentials_match(
            records@[0],
            payload.username@,
            payload.password@,
        )) ==> (r is Ok && r->Ok_0@ == records@[0].user_id@),
        (records@.len() > 0 && !spec_credentials_match(
            records@[0],
            payload.username@,
            payload.password@,
        )) ==> r == Err::<String, BackendError>(BackendError::InvalidCredentials),
{
    if records.len() == 0 {
        return Err(BackendError::InvalidCredentials);
    }
    let user = &records[0];
    if !(user.username == payload.username && user.password == payload.password) {
        return Err(BackendError::InvalidCredentials);
    }
    Ok(user.user_id.clone())
}

} // verus!
