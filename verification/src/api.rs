//! What a refused request to the JSON API is answered.
use vstd::prelude::*;
use crate::text::string_of;

verus! {

broadcast use vstd::string::group_string_axioms;

/// Why an API request was refused.
#[derive(Debug)]
pub enum ResponseError {
    /// The user could not be authenticated.
    AuthenticationFailed,
    /// Something went wrong inside; the text is logged, not shown.
    InternalError(String),
    /// The database failed, with its error's text; logged, not shown.
    SqlError(String),
    /// The object asked for does not exist.
    NotFoundError,
}

impl ResponseError {
    /// An internal error with this text.
    pub fn internal_error(message: &str) -> (e: ResponseError)
        ensures
            e matches ResponseError::InternalError(m) && m@ == message@,
    {
        ResponseError::InternalError(string_of(message))
    }

    /// The status code and the error message of the JSON answer: 401, 404,
    /// and 500 for the rest, whose details are not shown.
    pub fn into_response(self) -> (r: (u16, String))
        ensures
            match self {
                ResponseError::AuthenticationFailed => r.0 == 401 && r.1@ == "Authentication failed"@,
                ResponseError::InternalError(_) => r.0 == 500 && r.1@ == "Internal error"@,
                ResponseError::SqlError(_) => r.0 == 500 && r.1@ == "SQL Error"@,
                ResponseError::NotFoundError => r.0 == 404 && r.1@ == "Not Found"@,
            },
    {
        match self {
            ResponseError::AuthenticationFailed => (401, string_of("Authentication failed")),
            ResponseError::InternalError(_) => (500, string_of("Internal error")),
            ResponseError::SqlError(_) => (500, string_of("SQL Error")),
            ResponseError::NotFoundError => (404, string_of("Not Found")),
        }
    }
}

} // verus!
