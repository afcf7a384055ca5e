//! Error type shared by every part of the library.

use vstd::prelude::*;
use vstd::string::*;

verus! {

/// The failures the application reports to its front end.
#[derive(Debug, PartialEq, Eq)]
pub enum AppError {
    Sql(String),
    Crypto(String),
    Store(String),
    NotFound(String),
    Validation(String),
}

/// The human-readable form of an error: a category prefix followed by the detail.
pub open spec fn error_message(e: AppError) -> Seq<char> {
    match e {
        AppError::Sql(msg) => "database error: "@ + msg@,
        AppError::Crypto(msg) => "crypto error: "@ + msg@,
        AppError::Store(msg) => "store error: "@ + msg@,
        AppError::NotFound(msg) => "not found: "@ + msg@,
        AppError::Validation(msg) => "validation error: "@ + msg@,
    }
}

impl AppError {
    /// Renders the error as the front end shows it.
    pub fn message(&self) -> (res: String)
        ensures
            res@ == error_message(*self),
    {
        match self {
            AppError::Sql(msg) => String::from_str("database error: ").concat(msg.as_str()),
            AppError::Crypto(msg) => String::from_str("crypto error: ").concat(msg.as_str()),
            AppError::Store(msg) => String::from_str("store error: ").concat(msg.as_str()),
            AppError::NotFound(msg) => String::from_str("not found: ").concat(msg.as_str()),
            AppError::Validation(msg) => String::from_str("validation error: ").concat(
                msg.as_str(),
            ),
        }
    }
}

} // verus!
