//! The failure kinds of the database connection lifecycle.  Connecting and
//! migrating are I/O that lives outside the library; these kinds and their
//! report texts are the part the library owns.

use vstd::prelude::*;

use vstd::string::StringExecFns;

verus! {

/// What can go wrong while bringing the database up.
#[derive(Debug, Clone, PartialEq)]
pub enum DBErrors {
    /// The database host could not be reached.
    DbHost(String),
    /// Signing in to the database failed.
    SignIn(String),
    /// Selecting the namespace and database failed.
    DbConnection(String),
}

impl DBErrors {
    /// The report text for this failure: a fixed prefix and the detail.
    pub fn message(&self) -> (r: String)
        ensures
            self matches DBErrors::DbHost(d) ==> r@ == "Failed to find the database: "@ + d@,
            self matches DBErrors::SignIn(d) ==> r@ == "Failed to signin to the database: "@ + d@,
            self matches DBErrors::DbConnection(d) ==> r@ == "Failed to connect to the database: "@
                + d@,
    {
        match self {
            DBErrors::DbHost(d) => String::from_str("Failed to find the database: ").concat(
                d.as_str(),
            ),
            DBErrors::SignIn(d) => String::from_str("Failed to signin to the database: ").concat(
                d.as_str(),
            ),
            DBErrors::DbConnection(d) => String::from_str(
                "Failed to connect to the database: ",
            ).concat(d.as_str()),
        }
    }
}

} // verus!
