//! A stateless HTTP session-authentication core.
//!
//! The library issues and validates signed, time-bounded claims that travel
//! either as a bearer token in an `Authorization` header or as the value of an
//! HTTP-only session cookie.  The claims codec, the per-request extraction
//! contracts, the two-stage cookie middleware decisions, the cookie lifecycle
//! and the login decision are all verified; the HTTP transport around them is
//! not part of this crate's logic.

pub mod errors;
pub mod textform;
pub mod claims;
pub mod base64url;
pub mod token;
pub mod principal;
pub mod bearer_jwt;
pub mod cookie_jwt;
pub mod login;
pub mod db;
pub mod api;
pub mod api_bearer;
pub mod api_cookie;
pub mod config;
pub mod laws;
pub mod pages;

pub use errors::ApiResult;
pub use errors::BackendError;
pub use errors::BackendErrorMessage;
