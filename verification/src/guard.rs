//! The session guard: turns the inbound request's refresh cookie into
//! verified claims, or rejects the request as unauthenticated.
use vstd::prelude::*;

use crate::AuthError;
use crate::codec::{decode_refresh, spec_decode_refresh};
use crate::model::Claims;

verus! {

/// The cookie that carries the refresh token.
pub fn refresh_cookie_name() -> (r: &'static str)
    ensures
        r@ == "refresh_token"@,
{
    "refresh_token"
}

/// Verifies the refresh cookie locally, with no network traffic: a
/// missing cookie, a malformed or forged token and an expired token
/// all come back as `Unauthenticated`; a genuine, unexpired refresh
/// token yields its claims.
pub fn refresh_claims_from_cookie(cookie: Option<&str>, key: &str, now: u64) -> (r: Result<
    Claims,
    AuthError,
>)
    ensures
        cookie is None ==> r == Err::<Claims, AuthError>(AuthError::Unauthenticated),
        cookie matches Some(c) ==> ((spec_decode_refresh(c@, key@, now) matches Ok(cv) ==> (
        r matches Ok(cl) && cl@ == cv)) && (spec_decode_refresh(c@, key@, now) is Err ==> r
            == Err::<Claims, AuthError>(AuthError::Unauthenticated))),
{
    match cookie {
        None => Err(AuthError::Unauthenticated),
        Some(c) => match decode_refresh(c, key, now) {
            Ok(cl) => Ok(cl),
            Err(_) => Err(AuthError::Unauthenticated),
        },
    }
}

} // verus!
