//! Error types for the hard failures of the library's operations:
//! unreadable input, malformed documents, unusable output paths. These
//! are distinct from validation issues, which are collected, never
//! raised.

use vstd::prelude::*;
use vstd::string::StringExecFns;

verus! {

/// Main error type of the library's operations.
#[derive(Debug, Clone, PartialEq)]
pub enum Error {
    /// An input or output operation failed.
    Io(String),
    /// Reading a CSV file failed.
    Csv(String),
    /// Serializing or deserializing a JSON document failed.
    Json(String),
    /// A file was not found.
    FileNotFound { path: String },
    /// A file's format is invalid.
    InvalidFormat { message: String },
    /// Validation failed.
    ValidationFailed(String),
    /// An output path cannot be written to.
    InvalidOutputPath { path: String, reason: String },
    /// A required field is missing.
    MissingField { field: String },
    /// A value cannot be parsed as the requested data type.
    InvalidDataType { value: String, data_type: String },
    /// Any other error.
    Generic(String),
}

impl Error {
    /// Create a new generic error.
    pub fn new(message: &str) -> (r: Self)
        ensures
            r matches Error::Generic(m) && m@ == message@,
    {
        Error::Generic(String::from_str(message))
    }

    /// Create a new file-not-found error.
    pub fn file_not_found(path: &str) -> (r: Self)
        ensures
            r matches Error::FileNotFound { path: p } && p@ == path@,
    {
        Error::FileNotFound { path: String::from_str(path) }
    }

    /// Create a new invalid-format error.
    pub fn invalid_format(message: &str) -> (r: Self)
        ensures
            r matches Error::InvalidFormat { message: m } && m@ == message@,
    {
        Error::InvalidFormat { message: String::from_str(message) }
    }

    /// Create a new invalid-output-path error.
    pub fn invalid_output_path(path: &str, reason: &str) -> (r: Self)
        ensures
            r matches Error::InvalidOutputPath { path: p, reason: w } && p@ == path@ && w@
                == reason@,
    {
        Error::InvalidOutputPath {
            path: String::from_str(path),
            reason: String::from_str(reason),
        }
    }

    /// Create a new missing-field error.
    pub fn missing_field(field: &str) -> (r: Self)
        ensures
            r matches Error::MissingField { field: f } && f@ == field@,
    {
        Error::MissingField { field: String::from_str(field) }
    }

    /// Create a new invalid-data-type error.
    pub fn invalid_data_type(value: &str, data_type: &str) -> (r: Self)
        ensures
            r matches Error::InvalidDataType { value: v, data_type: d } && v@ == value@ && d@
                == data_type@,
    {
        Error::InvalidDataType {
            value: String::from_str(value),
            data_type: String::from_str(data_type),
        }
    }
}

} // verus!
