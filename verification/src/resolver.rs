//! Identity resolution: classifying the presented credential, the
//! request targets for the peer services, and the mapping of peer
//! answers onto the gateway's error taxonomy.
use vstd::prelude::*;

use crate::AuthError;
use crate::dec::{all_dec, append_dec_i32, dec_i32, dec_num, lemma_dec_num_prefix};
use crate::model::PubNewUser;

verus! {

/// The anchor account that provisioned guest identities depend on.
pub open spec fn spec_guest_depends_on() -> i32 {
    1
}

/// The fixed role given to provisioned guest identities.
pub open spec fn spec_guest_role_id() -> i32 {
    4
}

/// A presented credential, classified once at the boundary: a guest
/// marker `guest.<project id>`, or an opaque profile token.
pub enum Credential {
    Guest(i32),
    Opaque(String),
}

pub open spec fn guest_prefix() -> Seq<char> {
    seq!['g', 'u', 'e', 's', 't', '.']
}

/// A guest marker is `guest.` followed by at least one decimal digit,
/// the digits reading as a value an `i32` can hold.
pub open spec fn is_guest_marker(s: Seq<char>) -> bool {
    &&& s.len() >= 7
    &&& s.subrange(0, 6) == guest_prefix()
    &&& all_dec(s.subrange(6, s.len() as int))
    &&& dec_num(s.subrange(6, s.len() as int)) <= 0x7fffffff
}

pub open spec fn guest_project_id(s: Seq<char>) -> int {
    dec_num(s.subrange(6, s.len() as int)) as int
}

/// Classifies `token`: a well-formed guest marker resolves to its
/// project id, anything else falls through as an opaque credential for
/// the profile exchange.
pub fn parse_credential(token: String) -> (r: Credential)
    ensures
        is_guest_marker(token@) ==> (r matches Credential::Guest(p) && p == guest_project_id(
            token@,
        )),
        !is_guest_marker(token@) ==> (r matches Credential::Opaque(t) && t@ == token@),
{
    let s = token.as_str();
    let n = s.unicode_len();
    if n < 7 {
        return Credential::Opaque(token);
    }
    let ghost digits = token@.subrange(6, token@.len() as int);
    if s.get_char(0) != 'g' || s.get_char(1) != 'u' || s.get_char(2) != 'e' || s.get_char(3)
        != 's' || s.get_char(4) != 't' || s.get_char(5) != '.' {
        proof {
            assert(token@.subrange(0, 6) != guest_prefix());
        }
        return Credential::Opaque(token);
    }
    proof {
        assert(token@.subrange(0, 6) =~= guest_prefix());
    }
    let mut acc: u64 = 0;
    let mut i: usize = 6;
    while i < n
        invariant
            6 <= i <= n,
            n == token@.len(),
            digits == token@.subrange(6, token@.len() as int),
            all_dec(token@.subrange(6, i as int)),
            acc as nat == dec_num(token@.subrange(6, i as int)),
            acc <= 0x7fffffff,
        decreases n - i,
    {
        let c = token.as_str().get_char(i);
        let u = c as u32;
        if u < 48 || u > 57 {
            proof {
                assert(digits[i - 6] == token@[i as int]);
                assert(!all_dec(digits));
            }
            return Credential::Opaque(token);
        }
        let d = (u - 48) as u8;
        let next: u64 = acc * 10 + (d as u64);
        proof {
            let prev = token@.subrange(6, i as int);
            let cur = token@.subrange(6, i + 1);
            assert(cur.drop_last() =~= prev);
            assert(cur.last() == c);
        }
        if next > 0x7fffffff {
            proof {
                let cur = token@.subrange(6, i + 1);
                lemma_dec_num_prefix(digits, i + 1 - 6);
                assert(digits.subrange(0, i + 1 - 6) =~= cur);
            }
            return Credential::Opaque(token);
        }
        acc = next;
        i = i + 1;
    }
    proof {
        assert(token@.subrange(6, i as int) =~= digits);
        assert(is_guest_marker(token@));
    }
    Credential::Guest(acc as i32)
}

/// The directory record sent when a guest identity is provisioned for
/// `project_id`: the fixed guest role, anchored and active.
pub fn guest_new_user(project_id: i32) -> (r: PubNewUser)
    ensures
        r.depends_on == spec_guest_depends_on(),
        r.role_id == spec_guest_role_id(),
        r.active == Some(true),
        r.project_id == project_id,
{
    PubNewUser { depends_on: 1, role_id: 4, active: Some(true), project_id }
}

/// How a peer service answered: a parsed body, a non-success HTTP
/// status, or a transport-level failure (including an unreadable body).
pub enum PeerResult<T> {
    Success(T),
    HttpError(u16),
    Transport,
}

/// Maps a directory answer: the record on success, `NotFound` when the
/// directory does not know the subject, any other peer status forwarded
/// verbatim, and transport failures collapsed to `InternalError`.
pub fn map_directory_result<T>(r: PeerResult<T>) -> (res: Result<T, AuthError>)
    ensures
        r matches PeerResult::Success(v) ==> (res matches Ok(w) && w == v),
        r matches PeerResult::HttpError(s) ==> res == (if s == 404 {
            Err::<T, AuthError>(AuthError::NotFound)
        } else {
            Err::<T, AuthError>(AuthError::UpstreamUnavailable(s))
        }),
        r is Transport ==> res == Err::<T, AuthError>(AuthError::InternalError),
{
    match r {
        PeerResult::Success(v) => Ok(v),
        PeerResult::HttpError(s) => {
            if s == 404 {
                Err(AuthError::NotFound)
            } else {
                Err(AuthError::UpstreamUnavailable(s))
            }
        },
        PeerResult::Transport => Err(AuthError::InternalError),
    }
}

/// Maps a profile-exchange answer: the resolved user id on success,
/// `Unauthorized` for any rejection of the credential, and transport
/// failures collapsed to `InternalError`.
pub fn map_profile_result(r: PeerResult<i32>) -> (res: Result<i32, AuthError>)
    ensures
        r matches PeerResult::Success(v) ==> res == Ok::<i32, AuthError>(v),
        r is HttpError ==> res == Err::<i32, AuthError>(AuthError::Unauthorized),
        r is Transport ==> res == Err::<i32, AuthError>(AuthError::InternalError),
{
    match r {
        PeerResult::Success(v) => Ok(v),
        PeerResult::HttpError(_) => Err(AuthError::Unauthorized),
        PeerResult::Transport => Err(AuthError::InternalError),
    }
}

/// The missing service-to-service credential is a local failure.
pub fn require_robot_token(t: Option<String>) -> (r: Result<String, AuthError>)
    ensures
        t matches Some(v) ==> (r matches Ok(w) && w@ == v@),
        t is None ==> r == Err::<String, AuthError>(AuthError::InternalError),
{
    match t {
        Some(v) => Ok(v),
        None => Err(AuthError::InternalError),
    }
}

/// The directory endpoint that serves the claims view of a user.
pub fn user_claims_url(base: &str, user_id: i32) -> (r: String)
    ensures
        r@ == base@ + dec_i32(user_id) + "/userinclaims"@,
{
    let mut out = base.to_owned();
    append_dec_i32(&mut out, user_id);
    out.append("/userinclaims");
    out
}

/// The messaging endpoint that stores the push tokens of a user.
pub fn message_token_url(base: &str, user_id: i32) -> (r: String)
    ensures
        r@ == base@ + "token/user/"@ + dec_i32(user_id),
{
    let mut out = base.to_owned();
    out.append("token/user/");
    append_dec_i32(&mut out, user_id);
    out
}

/// The profile endpoint that exchanges a credential for a user id.
pub fn profile_token_url(base: &str) -> (r: String)
    ensures
        r@ == base@ + "token"@,
{
    let mut out = base.to_owned();
    out.append("token");
    out
}

} // verus!

