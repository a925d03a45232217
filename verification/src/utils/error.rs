//! The library's single error type.

use vstd::prelude::*;

verus! {

/// `std::io::Error`, carried through as an opaque value.
#[verifier::external_type_specification]
#[verifier::external_body]
pub struct ExIoError(std::io::Error);

/// Application-wide error.
#[derive(Debug)]
pub enum AppError {
    /// Underlying I/O error.
    Io(std::io::Error),
    /// Data did not have the expected format.
    Parse(String),
    /// A file, device or interface was not found.
    NotFound(String),
    /// The configuration was malformed.
    Config(String),
    /// A system call reported an error.
    System(String),
}

impl From<std::io::Error> for AppError {
    fn from(e: std::io::Error) -> (r: Self)
        ensures
            r == AppError::Io(e),
    {
        AppError::Io(e)
    }
}

impl vstd::std_specs::convert::FromSpecImpl<std::io::Error> for AppError {
    open spec fn obeys_from_spec() -> bool {
        true
    }

    open spec fn from_spec(v: std::io::Error) -> AppError {
        AppError::Io(v)
    }
}

} // verus!
