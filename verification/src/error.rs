//! Error types and HTTP response mappings for client and database errors.

use vstd::prelude::*;

verus! {

/// Application-level errors returned by HTTP request handlers.
#[derive(Debug)]
pub enum AppError {
    /// Invalid client input or missing query parameters (HTTP 400).
    BadRequest(String),
    /// Database execution or connection failure (HTTP 500), by its debug text.
    Database(String),
}

/// What an error is answered with.
pub struct ErrorResponse {
    /// The HTTP status.
    pub status: u16,
    /// The text of the response.
    pub body: String,
}

/// The HTTP status for invalid client input.
pub const BAD_REQUEST: u16 = 400;

/// The HTTP status for a failure of the server.
pub const INTERNAL_SERVER_ERROR: u16 = 500;

impl AppError {
    /// The status and the text that the error is answered with: a bad request with
    /// its message, and a failure of the database with its debug text.
    pub fn into_response(self) -> (r: ErrorResponse)
        ensures
            match self {
                AppError::BadRequest(message) => r.status == BAD_REQUEST && r.body@ == message@,
                AppError::Database(error) => r.status == INTERNAL_SERVER_ERROR && r.body@
                    == "DB Query error: "@ + error@ + "\r\n"@,
            },
    {
        match self {
            AppError::BadRequest(message) => ErrorResponse { status: BAD_REQUEST, body: message },
            AppError::Database(error) => {
                let mut body: String = String::new();
                body.push_str("DB Query error: ");
                body.push_str(error.as_str());
                body.push_str("\r\n");
                assert(body@ =~= "DB Query error: "@ + error@ + "\r\n"@);
                ErrorResponse { status: INTERNAL_SERVER_ERROR, body }
            },
        }
    }
}

} // verus!
