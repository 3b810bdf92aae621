//! The login and session scenarios the service exercises, played at the
//! library level: the HTTP layer only moves these values in and out of
//! requests.

use session_auth::api_bearer;
use session_auth::api_cookie;
use session_auth::cookie_jwt::{
    cookie_jwt_bearer_auth, cookie_jwt_bearer_resolver, remove_cookie_jwt_bearer_claims,
    CookieJWTClaims,
};
use session_auth::errors::BackendError;
use session_auth::login::{LoginPayload, UserRecord};

const NOW: u64 = 2_000_000_000;

fn secret() -> Vec<u8> {
    b"top-secret".to_vec()
}

fn payload(username: &str, password: &str) -> LoginPayload {
    LoginPayload { username: username.to_string(), password: password.to_string() }
}

/// What the credential directory returns for a pair that matches a stored
/// record: the row, already filtered on both fields.
fn directory_hit(username: &str, password: &str) -> Result<Vec<UserRecord>, session_auth::db::DBErrors> {
    Ok(vec![UserRecord {
        user_id: "user:root".to_string(),
        username: username.to_string(),
        password: password.to_string(),
    }])
}

#[test]
fn login_with_jwt() {
    // A matching pair logs in and the returned bearer token opens the page.
    let r = api_bearer::api_login_cookie_jwt(directory_hit("root", "root"), &payload("root", "root"), NOW, &secret());
    let body = r.expect("matching credentials log in");
    let header = format!("Bearer {}", body.bearer);
    let claims = session_auth::bearer_jwt::BearerJWTClaims::from_request_parts(
        Some(&header),
        &secret(),
        NOW + 10,
    )
    .expect("the fresh token is accepted");
    let page = api_bearer::protected_bearer_content(claims).expect("the page renders");
    assert_eq!(page, "nice secret page here! Oh btw your user id is: `user:root`");
}

#[test]
fn failed_login_with_jwt() {
    // No record matches: the directory returns nothing and login is refused.
    let r = api_bearer::api_login_cookie_jwt(Ok(vec![]), &payload("reuut", "rawt"), NOW, &secret());
    assert_eq!(r.unwrap_err(), BackendError::InvalidCredentials);
    // Without a token the page is refused.
    let r = session_auth::bearer_jwt::BearerJWTClaims::from_request_parts(None, &secret(), NOW);
    assert_eq!(r.unwrap_err(), BackendError::InvalidToken);
}

#[test]
fn login_with_jwt_cookie() {
    // Before login the resolver finds no cookie and enforcement refuses.
    let resolved = cookie_jwt_bearer_resolver(None, &secret(), NOW);
    assert_eq!(cookie_jwt_bearer_auth(&resolved).unwrap_err(), BackendError::NoCookieFound);

    // A matching login sets the session cookie; the body mirrors its value.
    let r = api_cookie::api_login_cookie_jwt(
        directory_hit("root", "root"),
        &payload("root", "root"),
        NOW,
        &secret(),
        "session",
    );
    let (body, cookie) = r.expect("matching credentials log in");
    assert_eq!(body.bearer, cookie.value, "the response body mirrors the cookie value");
    assert_eq!(cookie.name, "session");
    assert!(cookie.http_only);
    assert_eq!(cookie.path, "/");
    assert_eq!(cookie.expires_at, NOW + 86400);

    // With the cookie presented, resolution succeeds and the page renders.
    let resolved = cookie_jwt_bearer_resolver(Some(&cookie.value), &secret(), NOW + 10);
    assert!(cookie_jwt_bearer_auth(&resolved).is_ok());
    let claims = CookieJWTClaims::from_request_parts(Some(&resolved)).expect("claims extracted");
    let page = api_cookie::protected_cookie_content(claims).expect("the page renders");
    assert_eq!(page, "nice secret page here! Oh btw your user id is: `user:root`");

    // Logout clears the cookie; the client drops it, and the next request
    // carries none.
    let (cleared, message) = session_auth::cookie_jwt::logout_cookie("session", NOW + 20);
    assert_eq!(message, "You're now disconnected");
    assert_eq!(cleared.value, "");
    assert_eq!(cleared.expires_at, NOW + 20);
    let resolved = cookie_jwt_bearer_resolver(None, &secret(), NOW + 30);
    assert_eq!(cookie_jwt_bearer_auth(&resolved).unwrap_err(), BackendError::NoCookieFound);
}

#[test]
fn failed_login_with_jwt_cookie() {
    // The page is refused before any login.
    let resolved = cookie_jwt_bearer_resolver(None, &secret(), NOW);
    assert_eq!(cookie_jwt_bearer_auth(&resolved).unwrap_err(), BackendError::NoCookieFound);
    // reut/rotten matches no record, so the directory returns no row.
    let r = api_cookie::api_login_cookie_jwt(
        Ok(vec![]),
        &payload("reut", "rotten"),
        NOW,
        &secret(),
        "session",
    );
    assert_eq!(r.unwrap_err(), BackendError::InvalidCredentials);
    // Still no cookie, still refused.
    let resolved = cookie_jwt_bearer_resolver(None, &secret(), NOW);
    assert_eq!(cookie_jwt_bearer_auth(&resolved).unwrap_err(), BackendError::NoCookieFound);
}

#[test]
fn mismatched_record_is_refused() {
    // A row comes back but its fields do not both match the supplied pair.
    let rows = Ok(vec![UserRecord {
        user_id: "user:root".to_string(),
        username: "root".to_string(),
        password: "different".to_string(),
    }]);
    let r = api_bearer::api_login_cookie_jwt(rows, &payload("root", "root"), NOW, &secret());
    assert_eq!(r.unwrap_err(), BackendError::InvalidCredentials);
}

#[test]
fn directory_failure_is_an_internal_error() {
    let r = api_bearer::api_login_cookie_jwt(
        Err(session_auth::db::DBErrors::DbHost("unreachable".to_string())),
        &payload("root", "root"),
        NOW,
        &secret(),
    );
    assert_eq!(r.unwrap_err(), BackendError::SomethingWentWrong);
}

#[test]
fn resolver_never_rejects_it_only_resolves() {
    // Every input yields a resolved state; rejection is enforcement's call.
    let no_cookie = cookie_jwt_bearer_resolver(None, &secret(), NOW);
    assert_eq!(no_cookie.unwrap_err(), BackendError::NoCookieFound);
    let garbage = "not-a-token".to_string();
    let bad = cookie_jwt_bearer_resolver(Some(&garbage), &secret(), NOW);
    assert_eq!(bad.unwrap_err(), BackendError::InvalidToken);
}

#[test]
fn stale_cookie_after_expiry_is_invalid_token() {
    let r = api_cookie::api_login_cookie_jwt(
        directory_hit("root", "root"),
        &payload("root", "root"),
        NOW,
        &secret(),
        "session",
    );
    let (_, cookie) = r.expect("login succeeds");
    let resolved = cookie_jwt_bearer_resolver(Some(&cookie.value), &secret(), NOW + 86401);
    assert_eq!(resolved.unwrap_err(), BackendError::InvalidToken);
}

#[test]
fn ending_a_session_twice_gives_the_same_cleared_cookie() {
    let a = remove_cookie_jwt_bearer_claims("session", NOW);
    let b = remove_cookie_jwt_bearer_claims("session", NOW);
    assert_eq!(a, b);
    assert_eq!(a.value, "");
    assert!(a.http_only);
    assert_eq!(a.path, "/");
    assert_eq!(a.expires_at, NOW);
}

#[test]
fn missing_stash_reads_as_no_cookie() {
    let r = CookieJWTClaims::from_request_parts(None);
    assert_eq!(r.unwrap_err(), BackendError::NoCookieFound);
}
