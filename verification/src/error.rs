//! The library's error taxonomy and its mapping to HTTP status codes.

use vstd::prelude::*;

verus! {

#[derive(Debug, Clone, PartialEq, Eq)]
pub enum AppError {
    /// Missing, invalid or expired token.
    Unauthorized,
    /// Valid token, insufficient permission.
    Forbidden,
    /// No such entity.
    NotFound,
    /// Validation failed (length, content type, payload).
    BadRequest,
    /// Uniqueness violation.
    Conflict,
    /// Reserved for future use.
    RateLimited,
    /// Underlying store error; never leaked verbatim.
    Database,
    /// Any other internal error; never leaked verbatim.
    Internal,
}

impl AppError {
    /// The HTTP status code the REST boundary reports for this error.
    pub fn status_code(&self) -> (r: u16)
        ensures
            r == self.spec_status_code(),
    {
        match self {
            AppError::Unauthorized => 401,
            AppError::Forbidden => 403,
            AppError::NotFound => 404,
            AppError::BadRequest => 400,
            AppError::Conflict => 409,
            AppError::RateLimited => 429,
            AppError::Database => 500,
            AppError::Internal => 500,
        }
    }

    pub open spec fn spec_status_code(&self) -> u16 {
        match self {
            AppError::Unauthorized => 401,
            AppError::Forbidden => 403,
            AppError::NotFound => 404,
            AppError::BadRequest => 400,
            AppError::Conflict => 409,
            AppError::RateLimited => 429,
            AppError::Database => 500,
            AppError::Internal => 500,
        }
    }
}

} // verus!
