//! The fixed error mapping and the configuration assembly.

use session_auth::config::{build_config, ConfigError};
use session_auth::db::DBErrors;
use session_auth::errors::BackendError;

#[test]
fn every_error_maps_to_its_fixed_status_and_reason() {
    let table = [
        (BackendError::InvalidCredentials, 401, "Invalid Credentials"),
        (BackendError::InvalidToken, 401, "Invalid Token"),
        (BackendError::TokenNotFound, 401, "No Token Found"),
        (BackendError::NoCookieFound, 401, "No Cookie Found"),
        (BackendError::SomethingWentWrong, 500, "Something Went Wrong"),
        (BackendError::SerializationFailed, 500, "Serialization Failed"),
        (BackendError::JWTEncodingFailed, 500, "JWT Encoding Failed"),
    ];
    for (e, code, reason) in table {
        assert_eq!(e.status_code(), code);
        let m = e.error_message();
        assert_eq!(m.code, code);
        assert_eq!(m.reason, reason);
    }
}

#[test]
fn db_error_messages_carry_their_detail() {
    assert_eq!(
        DBErrors::DbHost("x".to_string()).message(),
        "Failed to find the database: x"
    );
    assert_eq!(
        DBErrors::SignIn("y".to_string()).message(),
        "Failed to signin to the database: y"
    );
    assert_eq!(
        DBErrors::DbConnection("z".to_string()).message(),
        "Failed to connect to the database: z"
    );
}

fn full_env() -> [Option<String>; 10] {
    [
        Some("localhost".to_string()),
        Some("3000".to_string()),
        Some("127.0.0.1:8000".to_string()),
        Some("ns".to_string()),
        Some("db".to_string()),
        Some("root".to_string()),
        Some("root".to_string()),
        Some("2".to_string()),
        Some("top-secret".to_string()),
        None,
    ]
}

fn build(vals: [Option<String>; 10]) -> Result<session_auth::config::Config, ConfigError> {
    let [a, b, c, d, e, f, g, h, i, j] = vals;
    build_config(a, b, c, d, e, f, g, h, i, j)
}

#[test]
fn a_full_environment_builds_with_the_default_cookie_name() {
    let c = build(full_env()).expect("a full environment builds");
    assert_eq!(c.host_name, "localhost");
    assert_eq!(c.host_port, Some(3000));
    assert_eq!(c.db_version, Some(2));
    assert_eq!(c.jwt_secret, b"top-secret".to_vec());
    assert_eq!(c.jwt_cookie_name, "session");
}

#[test]
fn a_named_cookie_overrides_the_default() {
    let mut vals = full_env();
    vals[9] = Some("sid".to_string());
    let c = build(vals).expect("builds");
    assert_eq!(c.jwt_cookie_name, "sid");
}

#[test]
fn each_missing_value_yields_its_fixed_error() {
    let mut vals = full_env();
    vals[8] = None;
    assert_eq!(
        build(vals),
        Err(ConfigError::Missing("Missing: `JWT_SECRET`".to_string()))
    );
    let mut vals = full_env();
    vals[0] = None;
    assert_eq!(
        build(vals),
        Err(ConfigError::Missing("Missing Env: `DB_PSWD`".to_string()))
    );
    let mut vals = full_env();
    vals[2] = None;
    assert_eq!(
        build(vals),
        Err(ConfigError::Missing("Missing Env: `DB_HOST`".to_string()))
    );
}

#[test]
fn unparsable_numbers_yield_parse_errors() {
    let mut vals = full_env();
    vals[1] = Some("70000".to_string());
    assert_eq!(
        build(vals),
        Err(ConfigError::Parse("Parse Failed: `DB_VERSION`".to_string()))
    );
    let mut vals = full_env();
    vals[7] = Some("two".to_string());
    assert_eq!(
        build(vals),
        Err(ConfigError::Parse("Failed to parse `DB_VERSION`".to_string()))
    );
    let mut vals = full_env();
    vals[1] = None;
    let c = build(vals).expect("a missing port is simply absent");
    assert_eq!(c.host_port, None);
}

#[test]
fn page_texts_are_fixed() {
    assert_eq!(session_auth::pages::index(), "Hello, World!");
    assert_eq!(session_auth::pages::hello_plain(&"Ada".to_string()), "Hello Ada!");
    assert_eq!(
        session_auth::pages::hello_html(&session_auth::pages::HelloParams { name: None }),
        "<p>Hello Doe!</p>"
    );
    assert_eq!(
        session_auth::pages::hello_html(&session_auth::pages::HelloParams {
            name: Some("Ada".to_string())
        }),
        "<p>Hello Ada!</p>"
    );
}
