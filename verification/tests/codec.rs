//! The claims codec end to end: issuing, validating and deserializing, and
//! cross-checks of the token bytes against the jsonwebtoken crate itself.

use session_auth::bearer_jwt::{
    encode_required_jwt_bearer_claims, deserialize_bearer_claims, BearerJWTClaims, User,
};
use session_auth::errors::BackendError;

const NOW: u64 = 2_000_000_000;

fn secret() -> Vec<u8> {
    b"top-secret".to_vec()
}

fn issue(user_id: &str, now: u64) -> String {
    let user = User { user_id: user_id.to_string() };
    encode_required_jwt_bearer_claims(&user, now, &secret()).expect("issuance cannot fail")
}

fn validate(token: &str, now: u64) -> Result<BearerJWTClaims, BackendError> {
    let header = format!("Bearer {token}");
    BearerJWTClaims::from_request_parts(Some(&header), &secret(), now)
}

#[test]
fn round_trip_returns_the_principal() {
    let token = issue("root", NOW);
    let claims = validate(&token, NOW).expect("a fresh token validates");
    assert_eq!(claims.iat, NOW);
    assert_eq!(claims.exp, NOW + 86400);
    assert_eq!(claims.data, "{\"user_id\":\"root\"}");
    let user = deserialize_bearer_claims(claims).expect("the payload deserializes");
    assert_eq!(user.user_id, "root");
}

#[test]
fn round_trip_with_awkward_identifier() {
    let id = "we\"ird\\id with spaces";
    let token = issue(id, NOW);
    let claims = validate(&token, NOW).expect("a fresh token validates");
    let user = deserialize_bearer_claims(claims).expect("the payload deserializes");
    assert_eq!(user.user_id, id);
}

#[test]
fn round_trip_with_empty_identifier_and_multibyte_identifier() {
    for id in ["", "überuser-\u{1F512}"] {
        let token = issue(id, NOW);
        let claims = validate(&token, NOW).expect("a fresh token validates");
        let user = deserialize_bearer_claims(claims).expect("the payload deserializes");
        assert_eq!(user.user_id, id);
    }
}

#[test]
fn round_trip_at_the_largest_issue_time() {
    let now = u64::MAX - 86400;
    let token = issue("root", now);
    let claims = validate(&token, now).expect("a fresh token validates");
    assert_eq!(claims.exp, u64::MAX);
}

#[test]
fn expired_token_fails_with_invalid_token() {
    let token = issue("root", NOW);
    assert!(validate(&token, NOW + 86400).is_ok());
    assert_eq!(validate(&token, NOW + 86401).unwrap_err(), BackendError::InvalidToken);
    assert_eq!(validate(&token, u64::MAX).unwrap_err(), BackendError::InvalidToken);
}

#[test]
fn wrong_secret_fails_with_invalid_token() {
    let token = issue("root", NOW);
    let header = format!("Bearer {token}");
    let other = b"other-secret".to_vec();
    let r = BearerJWTClaims::from_request_parts(Some(&header), &other, NOW);
    assert_eq!(r.unwrap_err(), BackendError::InvalidToken);
}

#[test]
fn tampered_token_fails_with_invalid_token() {
    let token = issue("root", NOW);
    let mut bytes = token.into_bytes();
    let mid = bytes.len() / 2;
    bytes[mid] = if bytes[mid] == b'A' { b'B' } else { b'A' };
    let tampered = String::from_utf8(bytes).unwrap();
    assert_eq!(validate(&tampered, NOW).unwrap_err(), BackendError::InvalidToken);
}

#[test]
fn missing_or_malformed_header_fails_with_invalid_token() {
    let r = BearerJWTClaims::from_request_parts(None, &secret(), NOW);
    assert_eq!(r.unwrap_err(), BackendError::InvalidToken);
    let token = issue("root", NOW);
    let bare = token.clone();
    let r = BearerJWTClaims::from_request_parts(Some(&bare), &secret(), NOW);
    assert_eq!(r.unwrap_err(), BackendError::InvalidToken);
    let basic = format!("Basic {token}");
    let r = BearerJWTClaims::from_request_parts(Some(&basic), &secret(), NOW);
    assert_eq!(r.unwrap_err(), BackendError::InvalidToken);
}

#[test]
fn garbage_payload_in_valid_claims_is_an_internal_error() {
    let claims = BearerJWTClaims { data: "not the expected shape".to_string(), exp: NOW + 86400, iat: NOW };
    let r = deserialize_bearer_claims(claims);
    assert_eq!(r.unwrap_err(), BackendError::SomethingWentWrong);
}

#[test]
fn issued_token_is_accepted_by_jsonwebtoken_itself() {
    let token = issue("root", NOW);
    let key = jsonwebtoken::DecodingKey::from_secret(b"top-secret");
    let decoded = jsonwebtoken::decode::<serde_json::Value>(
        &token,
        &key,
        &jsonwebtoken::Validation::default(),
    )
    .expect("jsonwebtoken accepts the token this library issues");
    let claims = decoded.claims;
    assert_eq!(claims.get("data").and_then(|v| v.as_str()), Some("{\"user_id\":\"root\"}"));
    assert_eq!(claims.get("exp").and_then(|v| v.as_u64()), Some(NOW + 86400));
    assert_eq!(claims.get("iat").and_then(|v| v.as_u64()), Some(NOW));
}

#[test]
fn token_encoded_by_jsonwebtoken_is_accepted_here() {
    let mut map = serde_json::Map::new();
    map.insert(
        "data".to_string(),
        serde_json::Value::String("{\"user_id\":\"root\"}".to_string()),
    );
    map.insert("exp".to_string(), serde_json::Value::from(NOW + 86400));
    map.insert("iat".to_string(), serde_json::Value::from(NOW));
    let value = serde_json::Value::Object(map);
    let key = jsonwebtoken::EncodingKey::from_secret(b"top-secret");
    let token =
        jsonwebtoken::encode(&jsonwebtoken::Header::default(), &value, &key).expect("encodes");
    let claims = validate(&token, NOW).expect("this library accepts jsonwebtoken's token");
    assert_eq!(claims.data, "{\"user_id\":\"root\"}");
    assert_eq!(claims.exp, NOW + 86400);
    assert_eq!(claims.iat, NOW);
    let user = deserialize_bearer_claims(claims).expect("the payload deserializes");
    assert_eq!(user.user_id, "root");
}
