use auth_gateway::codec::{decode_access, decode_refresh, DecodeError};
use auth_gateway::guard::{refresh_claims_from_cookie, refresh_cookie_name};
use auth_gateway::model::{Claims, ProjectInClaims, Role, UserInClaims};
use auth_gateway::AuthError;

fn sample_user(id: i32, secret: Option<&str>) -> UserInClaims {
    UserInClaims {
        id,
        role: Role { id: 2, name: String::from("member") },
        project: ProjectInClaims { id: 11, project_id: 3, active: true },
        user_token: secret.map(String::from),
    }
}

const KEY: &str = "test-signing-key";

#[test]
fn refresh_round_trip_keeps_all_claims() {
    let user = sample_user(7, Some("SECRET-REDACTED"));
    let claims = Claims::from_user(user, 1_000_000);
    let token = claims.encode_for_refresh(KEY);
    let decoded = decode_refresh(&token, KEY, 999_999).expect("fresh token must decode");
    assert_eq!(decoded.exp, 1_000_000);
    assert_eq!(decoded.user.id, 7);
    assert_eq!(decoded.user.role.id, 2);
    assert_eq!(decoded.user.role.name, "member");
    assert_eq!(decoded.user.project.id, 11);
    assert_eq!(decoded.user.project.project_id, 3);
    assert!(decoded.user.project.active);
    assert_eq!(decoded.user.user_token.as_deref(), Some("SECRET-REDACTED"));
}

#[test]
fn refresh_round_trip_without_capability_token() {
    let user = sample_user(-5, None);
    let claims = Claims::from_user(user, 42);
    let token = claims.encode_for_refresh(KEY);
    let decoded = decode_refresh(&token, KEY, 0).expect("fresh token must decode");
    assert_eq!(decoded.user.id, -5);
    assert_eq!(decoded.user.user_token, None);
}

#[test]
fn access_token_never_carries_the_capability_token() {
    let user = sample_user(7, Some("SECRET-REDACTED"));
    let claims = Claims::from_user(user, 1_000_000);
    let access = claims.encode_for_access(KEY);
    let decoded = decode_access(&access, KEY, 999_999).expect("fresh token must decode");
    assert_eq!(decoded.user.user_token, None);
    assert_eq!(decoded.user.id, 7);
    assert_eq!(decoded.user.role.name, "member");
    // The secret never appears anywhere in the access token, while the
    // refresh token of the same claims does carry it.
    assert!(!access.contains("SECRET"));
}

#[test]
fn access_token_is_rejected_as_refresh_token() {
    let user = sample_user(7, Some("cap"));
    let claims = Claims::from_user(user, 1_000_000);
    let access = claims.encode_for_access(KEY);
    match decode_refresh(&access, KEY, 0) {
        Err(DecodeError::InvalidToken) => {}
        other => panic!("expected InvalidToken, got {:?}", other.map(|c| c.user.id)),
    }
}

#[test]
fn wrong_key_is_rejected() {
    let user = sample_user(7, None);
    let token = Claims::from_user(user, 1_000_000).encode_for_refresh(KEY);
    match decode_refresh(&token, "another-key", 0) {
        Err(DecodeError::InvalidToken) => {}
        other => panic!("expected InvalidToken, got {:?}", other.map(|c| c.user.id)),
    }
}

#[test]
fn tampered_token_is_rejected() {
    let user = sample_user(7, None);
    let token = Claims::from_user(user, 1_000_000).encode_for_refresh(KEY);
    let mut tampered: Vec<char> = token.chars().collect();
    tampered[18] = if tampered[18] == '0' { '1' } else { '0' };
    let tampered: String = tampered.into_iter().collect();
    match decode_refresh(&tampered, KEY, 0) {
        Err(DecodeError::InvalidToken) => {}
        other => panic!("expected InvalidToken, got {:?}", other.map(|c| c.user.id)),
    }
}

#[test]
fn expired_token_is_distinguished_from_invalid() {
    let user = sample_user(7, None);
    let token = Claims::from_user(user, 100).encode_for_refresh(KEY);
    match decode_refresh(&token, KEY, 101) {
        Err(DecodeError::Expired) => {}
        other => panic!("expected Expired, got {:?}", other.map(|c| c.user.id)),
    }
}

#[test]
fn expired_cookie_is_unauthenticated_not_internal() {
    let user = sample_user(7, None);
    let token = Claims::from_user(user, 100).encode_for_refresh(KEY);
    let r = refresh_claims_from_cookie(Some(&token), KEY, 200);
    match r {
        Err(AuthError::Unauthenticated) => {}
        Err(e) => panic!("expected Unauthenticated, got {:?}", e),
        Ok(c) => panic!("expected rejection, got claims for {}", c.user.id),
    }
}

#[test]
fn missing_cookie_is_unauthenticated() {
    match refresh_claims_from_cookie(None, KEY, 0) {
        Err(AuthError::Unauthenticated) => {}
        Err(e) => panic!("expected Unauthenticated, got {:?}", e),
        Ok(c) => panic!("expected rejection, got claims for {}", c.user.id),
    }
}

#[test]
fn valid_cookie_yields_claims() {
    let user = sample_user(9, Some("cap"));
    let token = Claims::from_user(user, 5_000).encode_for_refresh(KEY);
    let claims = refresh_claims_from_cookie(Some(&token), KEY, 4_000).expect("valid cookie");
    assert_eq!(claims.user.id, 9);
    assert_eq!(claims.user.user_token.as_deref(), Some("cap"));
}

#[test]
fn empty_and_short_tokens_are_invalid() {
    assert!(matches!(decode_refresh("", KEY, 0), Err(DecodeError::InvalidToken)));
    assert!(matches!(decode_refresh("R", KEY, 0), Err(DecodeError::InvalidToken)));
}

#[test]
fn extreme_values_round_trip() {
    let user = UserInClaims {
        id: i32::MIN,
        role: Role { id: i32::MAX, name: String::new() },
        project: ProjectInClaims { id: -1, project_id: 0, active: false },
        user_token: Some(String::new()),
    };
    let claims = Claims::from_user(user, u64::MAX);
    let token = claims.encode_for_refresh(KEY);
    let decoded = decode_refresh(&token, KEY, u64::MAX).expect("still valid at the last instant");
    assert_eq!(decoded.exp, u64::MAX);
    assert_eq!(decoded.user.id, i32::MIN);
    assert_eq!(decoded.user.role.id, i32::MAX);
    assert_eq!(decoded.user.role.name, "");
    assert_eq!(decoded.user.project.id, -1);
    assert!(!decoded.user.project.active);
    assert_eq!(decoded.user.user_token.as_deref(), Some(""));
}

#[test]
fn cookie_name_is_stable() {
    assert_eq!(refresh_cookie_name(), "refresh_token");
}
