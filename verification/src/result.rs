//! Error taxonomy for the randomness server core.

use vstd::prelude::*;

verus! {

/// Server error conditions visible to callers of the core.
///
/// The first group is client-visible; the last two report internal
/// failures surfaced while rotating or synchronizing keys.
#[derive(Debug, PartialEq, Eq)]
pub enum Error {
    /// No instance is registered under the requested name.
    InstanceNotFound(String),
    /// A decoded point does not have the compressed-point length.
    BadPoint,
    /// More points than `MAX_POINTS` in a single request.
    TooManyPoints,
    /// The requested epoch tag is not the currently active tag.
    BadEpoch(u8),
    /// A point was not valid base64.
    Base64,
    /// The PPOPRF primitive rejected an operation.
    Oprf,
    /// A key payload could not be serialized or deserialized.
    KeySerialization,
    /// A key-sync call that contradicts this server's latched role.
    InvalidPrivateKeyCall,
    /// The instance slot is still awaiting key material.
    PPOPRFNotReady,
}

impl Error {
    /// HTTP status code for this error: 404 for an unknown instance,
    /// 503 while awaiting key material, 500 for internal failures,
    /// 400 for the remaining client faults.
    pub fn status_code(&self) -> (code: u16)
        ensures
            code == match self {
                Error::InstanceNotFound(_) => 404u16,
                Error::PPOPRFNotReady => 503u16,
                Error::Oprf => 500u16,
                Error::KeySerialization => 500u16,
                _ => 400u16,
            },
    {
        match self {
            Error::InstanceNotFound(_) => 404,
            Error::PPOPRFNotReady => 503,
            Error::Oprf => 500,
            Error::KeySerialization => 500,
            _ => 400,
        }
    }
}

/// Result alias used throughout the core.
pub type Result<T> = core::result::Result<T, Error>;

} // verus!
