//! The ways in which an operation can fail.

use vstd::prelude::*;

verus! {

/// Why an operation of the token engine could not be carried out.
#[derive(Clone, Copy, Debug, PartialEq, Eq, Structural)]
pub enum AuthError {
    /// The operating system's entropy source could not be opened, or this
    /// mint can name no further token: no key or nonce can be produced.
    EntropyUnavailable,
    /// The memory that was to hold the key could not be mapped.
    AllocationFailed,
    /// The key was released before it was used.
    KeyUnavailable,
    /// The bytes presented are not the encoding of a token, or the token
    /// cannot be encoded.
    MalformedToken,
}

impl AuthError {
    /// A short description, fit for an audit log.
    pub fn describe(&self) -> (text: &'static str)
        ensures
            text@ == match *self {
                AuthError::EntropyUnavailable => "entropy source unavailable"@,
                AuthError::AllocationFailed => "key memory could not be allocated"@,
                AuthError::KeyUnavailable => "key already released"@,
                AuthError::MalformedToken => "malformed token"@,
            },
    {
        match self {
            AuthError::EntropyUnavailable => "entropy source unavailable",
            AuthError::AllocationFailed => "key memory could not be allocated",
            AuthError::KeyUnavailable => "key already released",
            AuthError::MalformedToken => "malformed token",
        }
    }
}

} // verus!
