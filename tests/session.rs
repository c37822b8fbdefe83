use tchatchers_session::jwt::{Jwt, JWT_PATH};
use tchatchers_session::refresh_token::{CookieExpiry, RefreshToken, REFRESH_TOKEN_PATH};
use tchatchers_session::rotation::RotationOutcome;
use tchatchers_session::codec::TokenError;
use tchatchers_session::session::{
    authenticate, create_user, credentials_for_lookup, insertable_for_storage, login_exists, logout, rotation_reply,
    update_user, validate, UserRecord, AUTH_FAILURE_DELAY_SECONDS, BAD_CREDENTIALS_MESSAGE,
    SESSION_ENDED_MESSAGE,
};
use tchatchers_session::validator::{AuthenticableUser, InsertableUser};

const JWT_SECRET: &str = "jwt-secret";
const REFRESH_SECRET: &str = "refresh-secret";

fn alice(authorized: bool) -> UserRecord {
    UserRecord { id: 1, login: "alice".to_string(), name: "Alice".to_string(), is_authorized: authorized }
}

#[test]
fn wrong_password_is_delayed_not_found_and_sets_nothing() {
    let r = authenticate(&None, false, JWT_SECRET, REFRESH_SECRET, 1000, 5);
    assert_eq!(r.status, 404);
    assert_eq!(r.message, BAD_CREDENTIALS_MESSAGE);
    assert!(r.delay_seconds >= AUTH_FAILURE_DELAY_SECONDS);
    assert!(r.cookies.is_empty());
    assert!(r.head.is_none());
}

#[test]
fn revoked_user_is_unauthorized() {
    let r = authenticate(&Some(alice(false)), false, JWT_SECRET, REFRESH_SECRET, 1000, 5);
    assert_eq!(r.status, 401);
    assert!(r.cookies.is_empty());
    assert_eq!(r.delay_seconds, 0);
}

#[test]
fn login_sets_both_cookies_and_the_head() {
    let r = authenticate(&Some(alice(true)), true, JWT_SECRET, REFRESH_SECRET, 1000, 5);
    assert_eq!(r.status, 200);
    assert_eq!(r.cookies.len(), 2);
    assert_eq!(r.cookies[0].name, JWT_PATH);
    assert!(!r.cookies[0].http_only);
    assert_eq!(r.cookies[0].expiry, CookieExpiry::Permanent);
    let claims = Jwt::decode(&r.cookies[0].value, JWT_SECRET, 1000).unwrap();
    assert_eq!(claims.login, "alice");
    assert_eq!(r.cookies[1].name, REFRESH_TOKEN_PATH);
    assert_eq!(r.cookies[1].expiry, CookieExpiry::Session);
    let t = RefreshToken::decode(&r.cookies[1].value, REFRESH_SECRET, 1000).unwrap();
    assert_eq!(t, RefreshToken::issued_at(1, true, 5, 1000));
    let head = r.head.unwrap();
    assert_eq!(head.fingerprint, t.fingerprint());
    assert_eq!(head.key, t.revoke_family());
}

#[test]
fn credentials_are_encrypted_before_lookup() {
    let creds = AuthenticableUser { login: "alice".to_string(), password: "password1".to_string() };
    let a = credentials_for_lookup(&creds, "key");
    let b = credentials_for_lookup(&creds, "key");
    let c = credentials_for_lookup(&creds, "other key");
    assert_eq!(a.login, "alice");
    assert_ne!(a.password, "password1");
    assert_eq!(a.password, b.password);
    assert_ne!(a.password, c.password);
}

#[test]
fn sign_up_answers() {
    assert_eq!(create_user(true, false).status, 400);
    assert_eq!(create_user(false, true).status, 201);
    assert_eq!(create_user(false, false).status, 500);
}

#[test]
fn login_availability() {
    assert_eq!(login_exists(true), 409);
    assert_eq!(login_exists(false), 200);
}

#[test]
fn authentication_check() {
    assert_eq!(validate(true).status, 200);
    let r = validate(false);
    assert_eq!(r.status, 401);
    assert_eq!(r.message, "You aren't logged in.");
}

#[test]
fn profile_update_answers() {
    assert_eq!(update_user(1, 2, &Some(alice(true)), JWT_SECRET, 1000).status, 403);
    assert_eq!(update_user(1, 1, &None, JWT_SECRET, 1000).status, 500);
    let r = update_user(1, 1, &Some(alice(true)), JWT_SECRET, 1000);
    assert_eq!(r.status, 201);
    assert_eq!(r.cookies.len(), 1);
    assert_eq!(Jwt::decode(&r.cookies[0].value, JWT_SECRET, 1000).unwrap().name, "Alice");
}

#[test]
fn logout_removes_identity_and_revokes_family() {
    let t = RefreshToken::issued_at(1, false, 9, 0);
    let r = logout(&Some(t));
    assert_eq!(r.status, 200);
    assert_eq!(r.cookies[0].name, JWT_PATH);
    assert_eq!(r.cookies[0].expiry, CookieExpiry::Removal);
    assert_eq!(r.revoke, Some(t.revoke_family()));
    assert_eq!(logout(&None).revoke, None);
}

#[test]
fn rotation_answers() {
    let t = RefreshToken::issued_at(1, false, 9, 0);
    let ok = rotation_reply(&RotationOutcome::Renewed(t), &Some(alice(true)), JWT_SECRET, REFRESH_SECRET, 0);
    assert_eq!(ok.status, 200);
    assert_eq!(ok.cookies.len(), 2);
    let rejected = rotation_reply(
        &RotationOutcome::Rejected(TokenError::Expired),
        &None,
        JWT_SECRET,
        REFRESH_SECRET,
        0,
    );
    let revoked = rotation_reply(&RotationOutcome::Revoked(9), &None, JWT_SECRET, REFRESH_SECRET, 0);
    assert_eq!(rejected.status, 401);
    assert_eq!(revoked.status, 401);
    assert_eq!(rejected.message, SESSION_ENDED_MESSAGE);
    assert_eq!(revoked.message, rejected.message);
    assert_eq!(revoked.revoke, Some(t.revoke_family()));
    assert_eq!(rejected.revoke, None);
    let banned = rotation_reply(&RotationOutcome::Renewed(t), &Some(alice(false)), JWT_SECRET, REFRESH_SECRET, 0);
    assert_eq!(banned.status, 401);
    assert!(banned.cookies.is_empty());
}

#[test]
fn new_accounts_are_stored_with_encrypted_passwords() {
    let u = InsertableUser { login: "bob".to_string(), name: "Bob".to_string(), password: "password1".to_string() };
    let stored = insertable_for_storage(&u, "key");
    assert_eq!(stored.login, "bob");
    assert_eq!(stored.name, "Bob");
    assert_ne!(stored.password, "password1");
    let creds = AuthenticableUser { login: "bob".to_string(), password: "password1".to_string() };
    assert_eq!(credentials_for_lookup(&creds, "key").password, stored.password);
}

#[test]
fn logout_cookie_clears_the_root_path() {
    let r = logout(&None);
    let c = &r.cookies[0];
    assert_eq!(c.path, "/");
    assert_eq!(c.value, "");
    assert!(c.secure);
    assert!(!c.http_only);
}

#[test]
fn unreachable_store_is_a_failure() {
    let r = rotation_reply(&RotationOutcome::StorageUnavailable, &None, JWT_SECRET, REFRESH_SECRET, 0);
    assert_eq!(r.status, 500);
    assert!(r.cookies.is_empty());
    assert_eq!(tchatchers_session::session::storage_unavailable().status, 500);
}

#[test]
fn login_head_lives_as_long_as_the_token() {
    let r = authenticate(&Some(alice(true)), false, JWT_SECRET, REFRESH_SECRET, 1000, 5);
    let t = RefreshToken::issued_at(1, false, 5, 1000);
    assert_eq!(r.head.unwrap().ttl_seconds, (t.exp - 1000) as u64);
}
