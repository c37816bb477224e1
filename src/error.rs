//! Errors of configuration.
use vstd::prelude::*;

verus! {

/// An error in the configuration that the environment gives.
#[derive(Clone, Debug, PartialEq, Eq)]
pub enum Error {
    /// A variable that the program cannot run without is unset.
    RequiredEnvVarNotFound(String),
    /// A path could not be used.
    InvalidPath(String),
}

/// The text shown to the user for an error.
pub open spec fn error_message(e: Error) -> Seq<char> {
    match e {
        Error::RequiredEnvVarNotFound(name) => "Required environment variable '"@ + name@
            + "' was not found."@,
        Error::InvalidPath(path) => "Invalid path '"@ + path@ + "' was found."@,
    }
}

impl Error {
    /// The text shown to the user for this error.
    pub fn message(&self) -> (r: String)
        ensures
            r@ == error_message(*self),
    {
        match self {
            Error::RequiredEnvVarNotFound(name) => {
                let mut r = String::from_str("Required environment variable '");
                r.append(name.as_str());
                r.append("' was not found.");
                r
            },
            Error::InvalidPath(path) => {
                let mut r = String::from_str("Invalid path '");
                r.append(path.as_str());
                r.append("' was found.");
                r
            },
        }
    }
}

} // verus!
