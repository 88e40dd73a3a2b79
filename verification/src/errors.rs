//! The error taxonomy a search can surface.
//!
//! Store trouble is reported, never masked as an empty result; the
//! collaborator that talks to the store hands the underlying error's
//! text in.

use vstd::prelude::*;

verus! {

/// Why a request could not be served.
#[derive(Debug, Clone, PartialEq, Eq)]
pub enum AppError {
    /// The message archive file was not found.
    DatabaseNotFound,
    /// The store could not be opened; carries the store's own words.
    DatabaseConnectionError(String),
    /// A query failed to run; carries the store's own words.
    DatabaseQueryError(String),
    IOError(String),
    SerializationError(String),
    PermissionError(String),
    OtherError(String),
}

/// The text shown for each error.
pub open spec fn spec_error_message(e: AppError) -> Seq<char> {
    match e {
        AppError::DatabaseNotFound => "iMessage database not found"@,
        AppError::DatabaseConnectionError(s) => "Database connection error: "@ + s@,
        AppError::DatabaseQueryError(s) => "Database query error: "@ + s@,
        AppError::IOError(s) => "IO error: "@ + s@,
        AppError::SerializationError(s) => "Serialization error: "@ + s@,
        AppError::PermissionError(s) => "Permission error: "@ + s@,
        AppError::OtherError(s) => "Other error: "@ + s@,
    }
}

impl AppError {
    /// The message a caller shows for this error.
    pub fn message(&self) -> (r: String)
        ensures
            r@ == spec_error_message(*self),
    {
        match self {
            AppError::DatabaseNotFound => String::from_str("iMessage database not found"),
            AppError::DatabaseConnectionError(s) => {
                let mut m = String::from_str("Database connection error: ");
                m.append(s.as_str());
                m
            },
            AppError::DatabaseQueryError(s) => {
                let mut m = String::from_str("Database query error: ");
                m.append(s.as_str());
                m
            },
            AppError::IOError(s) => {
                let mut m = String::from_str("IO error: ");
                m.append(s.as_str());
                m
            },
            AppError::SerializationError(s) => {
                let mut m = String::from_str("Serialization error: ");
                m.append(s.as_str());
                m
            },
            AppError::PermissionError(s) => {
                let mut m = String::from_str("Permission error: ");
                m.append(s.as_str());
                m
            },
            AppError::OtherError(s) => {
                let mut m = String::from_str("Other error: ");
                m.append(s.as_str());
                m
            },
        }
    }
}

} // verus!
