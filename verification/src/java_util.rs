//! Errors crossing the foreign-function boundary.
//!
//! The marshaling layer around the library turns a value of this type into
//! the host environment's exception; the error itself is plain data.

use vstd::prelude::*;

verus! {

/// An error to be surfaced to the host environment.
pub enum JNIError {
    Generic(String),
}

impl JNIError {
    /// The error text carried by this error.
    pub fn message(&self) -> (r: &str)
        ensures
            r@ == match self {
                JNIError::Generic(text) => text@,
            },
    {
        match self {
            JNIError::Generic(text) => text.as_str(),
        }
    }
}

} // verus!
