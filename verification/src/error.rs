use vstd::prelude::*;

verus! {

/// Error returned by database operations.
#[derive(Debug)]
pub struct DbError {
    pub message: String,
}

impl DbError {
    /// Creates a new database error.
    pub fn new(message: String) -> (r: Self)
        ensures
            r.message == message,
    {
        Self { message }
    }
}

} // verus!
