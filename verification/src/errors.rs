//! Error taxonomy. `NotFound`-style failures surface as `DatabaseError`
//! carrying a message; evaluation failures never surface as errors (they
//! resolve conditions to `false` instead), and partial DAG failures are
//! skipped branches, so neither appears here.

use vstd::prelude::*;

verus! {

/// Error returned when a requested entity (tree, project, configuration)
/// cannot be served by the storage collaborator.
#[derive(Debug, Clone)]
pub struct DatabaseError {
    pub message: String,
}

impl DatabaseError {
    /// Builds an error from a message, keeping the text as given.
    pub fn new(message: &str) -> (r: DatabaseError)
        ensures
            r.message@ == message@,
    {
        DatabaseError { message: message.to_owned() }
    }
}

/// Error for failures in the authentication layer around the engine.
#[derive(Debug, Clone)]
pub struct AuthError {
    pub message: String,
}

} // verus!
