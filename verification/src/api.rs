//! How the news API answers failures.

use vstd::prelude::*;

verus! {

/// The status code of a request that failed inside the server.
pub const INTERNAL_SERVER_ERROR: u16 = 500;

/// The body of a request that failed inside the server.
pub const INTERNAL_SERVER_ERROR_BODY: &'static str = "Internal server error";

/// An error met while answering a request; what went wrong is logged, not answered.
pub struct AppError {
    pub message: String,
}

impl AppError {
    /// An error with the given description.
    pub fn new(message: String) -> (e: Self)
        ensures
            e.message@ == message@,
    {
        AppError { message }
    }

    /// The answer to a request that failed with this error: status 500 and a body that
    /// tells nothing of the cause.
    pub fn response(&self) -> (r: (u16, &'static str))
        ensures
            r.0 == INTERNAL_SERVER_ERROR,
            r.1@ == INTERNAL_SERVER_ERROR_BODY@,
    {
        (INTERNAL_SERVER_ERROR, INTERNAL_SERVER_ERROR_BODY)
    }
}

} // verus!
