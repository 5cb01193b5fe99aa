//! Authentication gateway core: session claims, the access/refresh token
//! codec, the refresh-cookie guard, credential parsing and the decision
//! logic of the login, silent-refresh, dev-bypass and logout flows.
//!
//! Known design gap, kept deliberately: there is no server-side
//! revocation list, so a refresh token stays valid until its embedded
//! expiry even after logout — logout only clears the client's cookie.
//! Closing the gap would be a separate extension, not a codec change.
use vstd::prelude::*;

pub mod flows;
pub mod guard;
pub mod hex;
pub mod codec;
pub mod dec;
pub mod model;
pub mod resolver;

verus! {

/// The error taxonomy of the gateway, as surfaced to callers.
#[derive(PartialEq, Eq, Structural, Debug, Clone, Copy)]
pub enum AuthError {
    /// The refresh cookie is missing, malformed or expired.
    Unauthenticated,
    /// The profile exchange rejected the presented credential.
    Unauthorized,
    /// A peer service answered with a non-success HTTP status.
    UpstreamUnavailable(u16),
    /// The directory has no record for the requested identity.
    NotFound,
    /// A local failure (encoding, missing service credential).
    InternalError,
}

impl AuthError {
    /// The HTTP status code that this error is reported with.
    pub fn status_code(&self) -> (code: u16)
        ensures
            code == self.spec_status_code(),
    {
        match self {
            AuthError::Unauthenticated => 401,
            AuthError::Unauthorized => 401,
            AuthError::UpstreamUnavailable(s) => *s,
            AuthError::NotFound => 404,
            AuthError::InternalError => 500,
        }
    }

    /// The status code, as a spec-level function of the error.
    pub open spec fn spec_status_code(&self) -> u16 {
        match self {
            AuthError::Unauthenticated => 401,
            AuthError::Unauthorized => 401,
            AuthError::UpstreamUnavailable(s) => *s,
            AuthError::NotFound => 404,
            AuthError::InternalError => 500,
        }
    }
}

} // verus!
