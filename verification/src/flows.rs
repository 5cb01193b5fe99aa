//! The session flows as pure decision steps: each flow obtains an
//! identity in its own way and then shares one tail — issue both
//! tokens, set the refresh cookie, return the access token.
use vstd::prelude::*;

use crate::AuthError;
use crate::codec::{spec_access_token, spec_refresh_token};
use crate::model::{Claims, ClaimsView, PubNewUser, PubUserExpanded, UserInClaims};
use crate::resolver::{
    Credential, PeerResult, guest_new_user, is_guest_marker, map_directory_result,
    parse_credential,
};

verus! {

/// How long a refresh token lives: thirty days.
pub const REFRESH_TTL_SECS: u64 = 2592000;

/// How long an access token lives: fifteen minutes.
pub const ACCESS_TTL_SECS: u64 = 900;

/// The response body of a successful login, refresh or bypass.
pub struct AuthUser {
    pub user: UserInClaims,
    pub access_token: String,
}

/// Everything a successful flow hands back: the response body and the
/// refresh token destined for the session cookie.
pub struct AuthOutcome {
    pub auth_user: AuthUser,
    pub refresh_cookie: String,
}

/// Issues the pair of session tokens for `user` at instant `now`: a
/// long-lived refresh token with the full claims, and a short-lived
/// access token with the capability token stripped.
pub fn token_generator(user: UserInClaims, key: &str, now: u64) -> (r: (UserInClaims, String, String))
    requires
        now + REFRESH_TTL_SECS <= u64::MAX,
    ensures
        r.0@ == user@,
        r.1@ == spec_refresh_token(
            ClaimsView { user: user@, exp: (now + REFRESH_TTL_SECS) as u64 },
            key@,
        ),
        r.2@ == spec_access_token(
            ClaimsView { user: user@, exp: (now + ACCESS_TTL_SECS) as u64 },
            key@,
        ),
{
    let refresh_claims = Claims::from_user(user, now + REFRESH_TTL_SECS);
    let refresh_token = refresh_claims.encode_for_refresh(key);
    let access_claims = Claims { user: refresh_claims.user, exp: now + ACCESS_TTL_SECS };
    let access_token = access_claims.encode_for_access(key);
    (access_claims.user, refresh_token, access_token)
}

/// The shared tail of login, silent refresh and dev bypass.
pub fn finish_auth(user: UserInClaims, key: &str, now: u64) -> (r: AuthOutcome)
    requires
        now + REFRESH_TTL_SECS <= u64::MAX,
    ensures
        r.refresh_cookie@ == spec_refresh_token(
            ClaimsView { user: user@, exp: (now + REFRESH_TTL_SECS) as u64 },
            key@,
        ),
        r.auth_user.access_token@ == spec_access_token(
            ClaimsView { user: user@, exp: (now + ACCESS_TTL_SECS) as u64 },
            key@,
        ),
        r.auth_user.user@ == user@,
{
    let (user, refresh_token, access_token) = token_generator(user, key, now);
    AuthOutcome { auth_user: AuthUser { user, access_token }, refresh_cookie: refresh_token }
}

/// The first step of the login flow: a guest marker asks the directory
/// to provision a guest for its project, anything else goes to the
/// profile exchange.
pub enum LoginStep {
    CreateGuest(PubNewUser),
    ExchangeProfile(String),
}

pub fn login_begin(token: String) -> (r: LoginStep)
    ensures
        is_guest_marker(token@) ==> (r matches LoginStep::CreateGuest(nu) && nu.depends_on == 1
            && nu.role_id == 4 && nu.active == Some(true) && nu.project_id
            == crate::resolver::guest_project_id(token@)),
        !is_guest_marker(token@) ==> (r matches LoginStep::ExchangeProfile(t) && t@ == token@),
{
    match parse_credential(token) {
        Credential::Guest(project_id) => LoginStep::CreateGuest(guest_new_user(project_id)),
        Credential::Opaque(t) => LoginStep::ExchangeProfile(t),
    }
}

/// What the guest branch of login makes of the directory's answer to
/// the provisioning call: the created record reduced to claims, or the
/// directory failure mapped as usual.
pub fn login_after_guest(r: PeerResult<PubUserExpanded>) -> (res: Result<UserInClaims, AuthError>)
    ensures
        r matches PeerResult::Success(x) ==> (res matches Ok(u) && u.id == x.id && u.role@
            == x.role@ && u.project.id == x.project.id && u.project.project_id
            == x.project.project_id && u.project.active == x.project.active && (u.user_token
            is Some <==> x.user_token is Some) && (u.user_token is Some ==> u.user_token->Some_0@
            == x.user_token->Some_0@)),
        r matches PeerResult::HttpError(s) ==> res == (if s == 404 {
            Err::<UserInClaims, AuthError>(AuthError::NotFound)
        } else {
            Err::<UserInClaims, AuthError>(AuthError::UpstreamUnavailable(s))
        }),
        r is Transport ==> res == Err::<UserInClaims, AuthError>(AuthError::InternalError),
{
    match map_directory_result(r) {
        Ok(expanded) => Ok(expanded.into_user_in_claims()),
        Err(e) => Err(e),
    }
}

/// What every flow makes of the messaging service's answer to the
/// logout-time revoke call: nothing. Logout never fails to the caller;
/// the cookie is cleared and success is returned whatever happened.
pub struct LogoutOutcome {
    pub clear_cookie: bool,
    pub status: u16,
}

pub fn logout_step(revoke: PeerResult<()>) -> (r: LogoutOutcome)
    ensures
        r.clear_cookie,
        r.status == 200,
{
    match revoke {
        _ => LogoutOutcome { clear_cookie: true, status: 200 },
    }
}

} // verus!
