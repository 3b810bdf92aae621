//! The shapes the login endpoints answer with.

use vstd::prelude::*;

verus! {

/// A successful login's response body: the issued bearer token.
#[derive(Debug, Clone, PartialEq)]
pub struct ResponseBearer {
    pub bearer: String,
}

} // verus!
