use auth_gateway::codec::{decode_access, decode_refresh};
use auth_gateway::flows::{
    finish_auth, login_after_guest, login_begin, logout_step, token_generator, LoginStep,
};
use auth_gateway::model::{
    ProjectInClaims, PubUser, PubUserExpanded, Role, UserInClaims, UserProject,
};
use auth_gateway::resolver::{
    guest_new_user, map_directory_result, map_profile_result, message_token_url,
    parse_credential, profile_token_url, require_robot_token, user_claims_url, Credential,
    PeerResult,
};
use auth_gateway::AuthError;

const KEY: &str = "test-signing-key";

fn directory_user(id: i32) -> UserInClaims {
    UserInClaims {
        id,
        role: Role { id: 2, name: String::from("member") },
        project: ProjectInClaims { id: 11, project_id: 3, active: true },
        user_token: Some(String::from("SECRET-REDACTED")),
    }
}

#[test]
fn guest_marker_resolves_project_id() {
    match parse_credential(String::from("guest.42")) {
        Credential::Guest(p) => assert_eq!(p, 42),
        Credential::Opaque(t) => panic!("expected guest, got opaque {}", t),
    }
}

#[test]
fn guest_marker_with_leading_zeroes() {
    match parse_credential(String::from("guest.007")) {
        Credential::Guest(p) => assert_eq!(p, 7),
        Credential::Opaque(t) => panic!("expected guest, got opaque {}", t),
    }
}

#[test]
fn bare_guest_word_is_not_a_guest_marker() {
    match parse_credential(String::from("guest")) {
        Credential::Opaque(t) => assert_eq!(t, "guest"),
        Credential::Guest(p) => panic!("expected opaque, got guest {}", p),
    }
}

#[test]
fn non_numeric_guest_segment_is_not_a_guest_marker() {
    match parse_credential(String::from("guest.x")) {
        Credential::Opaque(t) => assert_eq!(t, "guest.x"),
        Credential::Guest(p) => panic!("expected opaque, got guest {}", p),
    }
}

#[test]
fn guest_marker_without_digits_is_rejected() {
    match parse_credential(String::from("guest.")) {
        Credential::Opaque(t) => assert_eq!(t, "guest."),
        Credential::Guest(p) => panic!("expected opaque, got guest {}", p),
    }
}

#[test]
fn oversized_guest_project_id_is_rejected() {
    match parse_credential(String::from("guest.2147483648")) {
        Credential::Opaque(t) => assert_eq!(t, "guest.2147483648"),
        Credential::Guest(p) => panic!("expected opaque, got guest {}", p),
    }
}

#[test]
fn login_begin_routes_guests_to_provisioning() {
    match login_begin(String::from("guest.42")) {
        LoginStep::CreateGuest(nu) => {
            assert_eq!(nu.project_id, 42);
            assert_eq!(nu.depends_on, 1);
            assert_eq!(nu.role_id, 4);
            assert_eq!(nu.active, Some(true));
        }
        LoginStep::ExchangeProfile(t) => panic!("expected guest step, got exchange {}", t),
    }
}

#[test]
fn login_begin_routes_credentials_to_profile_exchange() {
    match login_begin(String::from("opaque-profile-token")) {
        LoginStep::ExchangeProfile(t) => assert_eq!(t, "opaque-profile-token"),
        LoginStep::CreateGuest(nu) => panic!("expected exchange, got guest {}", nu.project_id),
    }
}

#[test]
fn guest_new_user_is_anchored_and_active() {
    let nu = guest_new_user(3);
    assert_eq!(nu.depends_on, 1);
    assert_eq!(nu.role_id, 4);
    assert_eq!(nu.active, Some(true));
    assert_eq!(nu.project_id, 3);
}

#[test]
fn directory_404_maps_to_not_found() {
    let r: Result<UserInClaims, AuthError> = map_directory_result(PeerResult::HttpError(404));
    assert_eq!(r.err(), Some(AuthError::NotFound));
    assert_eq!(AuthError::NotFound.status_code(), 404);
}

#[test]
fn directory_status_is_forwarded_verbatim() {
    let r: Result<UserInClaims, AuthError> = map_directory_result(PeerResult::HttpError(503));
    assert_eq!(r.err(), Some(AuthError::UpstreamUnavailable(503)));
    assert_eq!(AuthError::UpstreamUnavailable(503).status_code(), 503);
}

#[test]
fn directory_transport_failure_is_internal() {
    let r: Result<UserInClaims, AuthError> = map_directory_result(PeerResult::Transport);
    assert_eq!(r.err(), Some(AuthError::InternalError));
    assert_eq!(AuthError::InternalError.status_code(), 500);
}

#[test]
fn profile_rejection_is_unauthorized() {
    assert_eq!(map_profile_result(PeerResult::HttpError(403)).err(), Some(AuthError::Unauthorized));
    assert_eq!(map_profile_result(PeerResult::Transport).err(), Some(AuthError::InternalError));
    assert_eq!(map_profile_result(PeerResult::Success(7)).ok(), Some(7));
    assert_eq!(AuthError::Unauthorized.status_code(), 401);
    assert_eq!(AuthError::Unauthenticated.status_code(), 401);
}

#[test]
fn missing_robot_token_is_internal() {
    assert_eq!(require_robot_token(None).err(), Some(AuthError::InternalError));
    assert_eq!(require_robot_token(Some(String::from("bearer x"))).ok().as_deref(), Some("bearer x"));
}

#[test]
fn peer_urls_are_built_exactly() {
    assert_eq!(
        user_claims_url("http://localhost:8002/api/v1/user/", 7),
        "http://localhost:8002/api/v1/user/7/userinclaims"
    );
    assert_eq!(
        user_claims_url("http://localhost:8002/api/v1/user/", -3),
        "http://localhost:8002/api/v1/user/-3/userinclaims"
    );
    assert_eq!(
        message_token_url("http://localhost:8005/api/v1/messaging/", 120),
        "http://localhost:8005/api/v1/messaging/token/user/120"
    );
    assert_eq!(
        profile_token_url("http://localhost:8001/api/v1/profile/"),
        "http://localhost:8001/api/v1/profile/token"
    );
}

#[test]
fn login_end_to_end_for_user_seven() {
    // POST /login with a valid profile credential for user 7: the
    // profile exchange resolves the id, the directory returns the
    // identity, and the response carries an access token with no
    // secret while the cookie's refresh token keeps the full claims.
    let step = login_begin(String::from("valid-profile-credential"));
    let credential = match step {
        LoginStep::ExchangeProfile(t) => t,
        LoginStep::CreateGuest(nu) => panic!("unexpected guest step for {}", nu.project_id),
    };
    assert_eq!(credential, "valid-profile-credential");
    let user_id = map_profile_result(PeerResult::Success(7)).expect("profile accepts");
    let identity = map_directory_result(PeerResult::Success(directory_user(user_id)))
        .expect("directory knows user 7");
    let now = 1_700_000_000;
    let outcome = finish_auth(identity, KEY, now);
    assert_eq!(outcome.auth_user.user.id, 7);
    let access = decode_access(&outcome.auth_user.access_token, KEY, now).expect("access decodes");
    assert_eq!(access.user.id, 7);
    assert_eq!(access.user.user_token, None);
    let refresh = decode_refresh(&outcome.refresh_cookie, KEY, now).expect("refresh decodes");
    assert_eq!(refresh.user.id, 7);
    assert_eq!(refresh.user.role.name, "member");
    assert_eq!(refresh.user.project.project_id, 3);
    assert_eq!(refresh.user.user_token.as_deref(), Some("SECRET-REDACTED"));
}

#[test]
fn bypass_for_unknown_user_fails_without_tokens() {
    // GET /bypass/99 when the directory has no user 99: the flow stops
    // at the directory answer, before any token is issued.
    let r: Result<UserInClaims, AuthError> = map_directory_result(PeerResult::HttpError(404));
    match r {
        Err(e) => assert_eq!(e, AuthError::NotFound),
        Ok(u) => panic!("expected failure, got identity {}", u.id),
    }
}

#[test]
fn guest_login_reduces_directory_record_to_claims() {
    let expanded = PubUserExpanded {
        id: 31,
        depends_on: PubUser {
            id: 1,
            depends_on: 1,
            role_id: 1,
            user_token: None,
            created_at: 0,
            updated_at: 0,
        },
        role: Role { id: 4, name: String::from("guest") },
        user_token: None,
        project: UserProject {
            id: 9,
            user_id: 31,
            project_id: 42,
            active: true,
            keys: None,
            record: None,
        },
        created_at: 0,
        updated_at: 0,
    };
    let claims = login_after_guest(PeerResult::Success(expanded)).expect("created");
    assert_eq!(claims.id, 31);
    assert_eq!(claims.role.id, 4);
    assert_eq!(claims.role.name, "guest");
    assert_eq!(claims.project.project_id, 42);
    assert_eq!(claims.user_token, None);

    let failed = login_after_guest(PeerResult::Transport);
    assert_eq!(failed.err(), Some(AuthError::InternalError));
}

#[test]
fn logout_clears_cookie_even_when_messaging_is_down() {
    for revoke in [PeerResult::Success(()), PeerResult::HttpError(500), PeerResult::Transport] {
        let outcome = logout_step(revoke);
        assert!(outcome.clear_cookie);
        assert_eq!(outcome.status, 200);
    }
}

#[test]
fn token_generator_issues_both_tokens() {
    let user = directory_user(7);
    let now = 1_700_000_000;
    let (user, refresh_token, access_token) = token_generator(user, KEY, now);
    assert_eq!(user.id, 7);
    let refresh = decode_refresh(&refresh_token, KEY, now).expect("refresh decodes");
    let access = decode_access(&access_token, KEY, now).expect("access decodes");
    assert_eq!(refresh.exp, now + 2_592_000);
    assert_eq!(access.exp, now + 900);
    assert_eq!(refresh.user.user_token.as_deref(), Some("SECRET-REDACTED"));
    assert_eq!(access.user.user_token, None);
}
