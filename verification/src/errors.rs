//! The closed error taxonomy of the fetch pipeline.

use vstd::prelude::*;

verus! {

/// Setting credentials failed because a credential guard was unavailable.
#[derive(Debug, Copy, Clone, PartialEq, Eq, Structural)]
pub struct CredSetError;

impl CredSetError {
    /// A short description for the outermost boundary.
    pub fn message(&self) -> (r: &'static str)
        ensures
            r@ == "Failed to set credentials!"@,
    {
        "Failed to set credentials!"
    }
}

/// Everything that can go wrong between asking for data and returning it.
///
/// `FindFormError` is recoverable: the login form being absent also means
/// "already authenticated", and callers treat it as non-fatal.
/// `LaterRequestError` marks transient server-side trouble worth retrying at a
/// later tick; `InvalidCredsError` is not retryable without new credentials.
#[derive(Debug, Copy, Clone, PartialEq, Eq, Structural)]
pub enum LoginError {
    SerializationError,
    FindFormError,
    InvalidCredsError,
    RequestError,
    LaterRequestError,
    DecodeError,
    JsonError,
}

} // verus!
