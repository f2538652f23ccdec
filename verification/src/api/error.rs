//! One error type for handlers, rendered as a status and a small JSON body.

use vstd::prelude::*;
use crate::text::owned;

verus! {

#[derive(Debug)]
pub enum ApiError {
    NotFound,
    BadRequest(String),
    /// An internal failure, with its message for the log. Clients only see "internal error".
    Internal(String),
}

/// The JSON body of an error response.
#[derive(Debug, Clone, PartialEq, Eq)]
pub struct ErrorBody {
    pub error: String,
}

/// The HTTP status an error is answered with.
pub open spec fn status_spec(e: ApiError) -> u16 {
    match e {
        ApiError::NotFound => 404,
        ApiError::BadRequest(_) => 400,
        ApiError::Internal(_) => 500,
    }
}

/// The message the client sees: the request's own problem, never an internal one.
pub open spec fn message_spec(e: ApiError) -> Seq<char> {
    match e {
        ApiError::NotFound => "not found"@,
        ApiError::BadRequest(m) => m@,
        ApiError::Internal(_) => "internal error"@,
    }
}

impl ApiError {
    /// The status code and body this error is answered with.
    pub fn into_parts(self) -> (r: (u16, ErrorBody))
        ensures
            r.0 == status_spec(self),
            r.1.error@ == message_spec(self),
    {
        match self {
            ApiError::NotFound => (404, ErrorBody { error: owned("not found") }),
            ApiError::BadRequest(m) => (400, ErrorBody { error: m }),
            ApiError::Internal(_) => (500, ErrorBody { error: owned("internal error") }),
        }
    }

    /// A database failure: a query that returned no row is a missing resource, anything else is
    /// internal.
    pub fn from_db(no_rows: bool, message: String) -> (r: ApiError)
        ensures
            no_rows ==> r is NotFound,
            !no_rows ==> r == ApiError::Internal(message),
    {
        if no_rows {
            ApiError::NotFound
        } else {
            ApiError::Internal(message)
        }
    }
}

} // verus!
