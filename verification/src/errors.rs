use vstd::prelude::*;

verus! {

/// The error taxonomy of the authentication core.  Every failure a caller can
/// see is one of these kinds; each maps to a fixed HTTP status code and a
/// fixed machine-readable reason, and nothing else ever surfaces.
#[derive(Clone, Copy, Debug, PartialEq, Eq, Structural)]
pub enum BackendError {
    /// The login lookup returned no record matching both credential fields.
    InvalidCredentials,
    /// A token's signature is invalid, the token is malformed, or it has
    /// expired.  The three cases are deliberately never distinguished.
    InvalidToken,
    /// Reserved for a missing bearer header.
    TokenNotFound,
    /// The session cookie is absent on a cookie-gated route.
    NoCookieFound,
    /// An opaque internal failure.
    SomethingWentWrong,
    /// Serialization of a payload failed.
    SerializationFailed,
    /// Issuing the signed claims failed.
    JWTEncodingFailed,
}

pub type ApiResult<T> = Result<T, BackendError>;

/// The fixed HTTP status that a failure maps to: 401 for every credential or
/// token kind, 500 for the internal kinds.
pub open spec fn spec_status_code(e: BackendError) -> u16 {
    match e {
        BackendError::InvalidCredentials => 401,
        BackendError::InvalidToken => 401,
        BackendError::TokenNotFound => 401,
        BackendError::NoCookieFound => 401,
        BackendError::SomethingWentWrong => 500,
        BackendError::SerializationFailed => 500,
        BackendError::JWTEncodingFailed => 500,
    }
}

/// The fixed reason text that a failure maps to.
pub open spec fn spec_reason(e: BackendError) -> Seq<char> {
    match e {
        BackendError::InvalidCredentials => "Invalid Credentials"@,
        BackendError::InvalidToken => "Invalid Token"@,
        BackendError::TokenNotFound => "No Token Found"@,
        BackendError::NoCookieFound => "No Cookie Found"@,
        BackendError::SomethingWentWrong => "Something Went Wrong"@,
        BackendError::SerializationFailed => "Serialization Failed"@,
        BackendError::JWTEncodingFailed => "JWT Encoding Failed"@,
    }
}

/// The body of an error response: a machine-readable code and reason pair.
#[derive(Debug, Clone, PartialEq)]
pub struct BackendErrorMessage {
    pub code: u16,
    pub reason: String,
}

impl BackendErrorMessage {
    pub fn new(code: u16, reason: &str) -> (r: Self)
        ensures
            r.code == code,
            r.reason@ == reason@,
    {
        BackendErrorMessage { code, reason: reason.to_owned() }
    }
}

impl BackendError {
    /// The HTTP status this error is reported with.
    pub fn status_code(&self) -> (r: u16)
        ensures
            r == spec_status_code(*self),
    {
        match self {
            BackendError::InvalidCredentials => 401,
            BackendError::InvalidToken => 401,
            BackendError::TokenNotFound => 401,
            BackendError::NoCookieFound => 401,
            BackendError::SomethingWentWrong => 500,
            BackendError::SerializationFailed => 500,
            BackendError::JWTEncodingFailed => 500,
        }
    }

    /// The full code + reason pair this error is reported with.
    pub fn error_message(&self) -> (r: BackendErrorMessage)
        ensures
            r.code == spec_status_code(*self),
            r.reason@ == spec_reason(*self),
    {
        match self {
            BackendError::InvalidCredentials => BackendErrorMessage::new(401, "Invalid Credentials"),
            BackendError::InvalidToken => BackendErrorMessage::new(401, "Invalid Token"),
            BackendError::TokenNotFound => BackendErrorMessage::new(401, "No Token Found"),
            BackendError::NoCookieFound => BackendErrorMessage::new(401, "No Cookie Found"),
            BackendError::SomethingWentWrong => BackendErrorMessage::new(500, "Something Went Wrong"),
            BackendError::SerializationFailed => BackendErrorMessage::new(500, "Serialization Failed"),
            BackendError::JWTEncodingFailed => BackendErrorMessage::new(500, "JWT Encoding Failed"),
        }
    }
}

} // verus!
