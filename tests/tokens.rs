use tchatchers_session::codec::TokenError;
use tchatchers_session::jwt::{Jwt, JWT_LIFETIME, JWT_PATH};
use tchatchers_session::refresh_token::{
    CookieExpiry, RefreshToken, REFRESH_TOKEN_LIFETIME, REFRESH_TOKEN_PATH,
};

const SECRET: &str = "secret";

fn sample() -> RefreshToken {
    RefreshToken::issued_at(7, false, 42, 1000)
}

#[test]
fn issued_token_expires_one_lifetime_later() {
    let t = sample();
    assert_eq!(t.exp, 1000 + REFRESH_TOKEN_LIFETIME);
    assert_eq!(t.exp, 605800);
    assert_eq!(t.user_id, 7);
    assert!(!t.session_only);
    assert_eq!(t.token_family, 42);
}

#[test]
fn expiry_saturates_at_the_latest_time() {
    let t = RefreshToken::issued_at(1, true, 1, i64::MAX - 5);
    assert_eq!(t.exp, i64::MAX);
}

#[test]
fn fingerprint_is_the_canonical_text() {
    assert_eq!(sample().fingerprint(), "R7;605800;0;42;");
    let neg = RefreshToken::issued_at(-3, true, 0, -700000);
    assert_eq!(neg.fingerprint(), "R-3;-95200;1;0;");
}

#[test]
fn encoding_is_payload_dot_hs256_signature() {
    assert_eq!(
        sample().encode(SECRET),
        "R7;605800;0;42;.KlmZuNMBeN_cAWDbC2c2aIomusOzTMCngyNovPxXFjU"
    );
}

#[test]
fn refresh_token_round_trip() {
    let t = sample();
    let token = t.encode(SECRET);
    assert_eq!(RefreshToken::decode(&token, SECRET, 1000), Ok(t));
    assert_eq!(RefreshToken::decode(&token, SECRET, t.exp), Ok(t));
}

#[test]
fn refresh_token_with_largest_fields_round_trips() {
    let t = RefreshToken::issued_at(i32::MIN, true, u128::MAX, i64::MAX);
    let token = t.encode(SECRET);
    assert_eq!(RefreshToken::decode(&token, SECRET, 0), Ok(t));
}

#[test]
fn refresh_token_expires() {
    let t = sample();
    let token = t.encode(SECRET);
    assert_eq!(RefreshToken::decode(&token, SECRET, t.exp + 1), Err(TokenError::Expired));
}

#[test]
fn refresh_token_under_another_secret_is_refused() {
    let token = sample().encode(SECRET);
    assert_eq!(RefreshToken::decode(&token, "other", 1000), Err(TokenError::SignatureInvalid));
}

#[test]
fn tampered_refresh_token_is_refused() {
    let token = sample().encode(SECRET);
    let forged = token.replacen("R7;", "R8;", 1);
    assert_eq!(RefreshToken::decode(&forged, SECRET, 1000), Err(TokenError::SignatureInvalid));
}

#[test]
fn malformed_refresh_tokens_are_refused() {
    for bad in ["", "garbage", "R7;605800;0;42;", "R07;605800;0;42;.x", "R7;605800;2;42;.x", "R-0;1;0;1;.x"] {
        assert_eq!(RefreshToken::decode(bad, SECRET, 0), Err(TokenError::Malformed), "{bad}");
    }
}

#[test]
fn create_then_renew_keeps_family_and_flag() {
    let t = RefreshToken::issued_at(9, true, 77, 1000);
    let r = t.renewed_at(1001);
    assert_eq!(r.token_family, t.token_family);
    assert_eq!(r.session_only, t.session_only);
    assert_eq!(r.user_id, t.user_id);
    assert!(r.exp > t.exp);
}

#[test]
fn renewal_in_the_issuing_second_still_moves_the_expiry() {
    let t = RefreshToken::issued_at(9, true, 77, 1000);
    let r = t.renewed_at(1000);
    assert_eq!(r.exp, t.exp + 1);
    assert_ne!(r.fingerprint(), t.fingerprint());
    let last = RefreshToken::issued_at(9, true, 77, i64::MAX);
    assert_eq!(last.renewed_at(0).exp, i64::MAX);
}

#[test]
fn new_and_renew_keep_user_and_flag() {
    let t = RefreshToken::new(5, true);
    let r = t.renew();
    assert_eq!(r.user_id, 5);
    assert!(r.session_only);
    assert_eq!(r.token_family, t.token_family);
    assert!(r.exp > t.exp);
    let other = RefreshToken::new(5, true);
    assert_ne!(other.token_family, t.token_family);
}

#[test]
fn refresh_cookie_follows_the_session_flag() {
    let persistent = sample().store_in_jar(SECRET);
    assert_eq!(persistent.name, REFRESH_TOKEN_PATH);
    assert_eq!(persistent.path, "/");
    assert!(persistent.secure);
    assert!(persistent.http_only);
    assert_eq!(persistent.expiry, CookieExpiry::At(605800));
    assert_eq!(persistent.value, sample().encode(SECRET));

    let session = RefreshToken::issued_at(7, true, 42, 1000).store_in_jar(SECRET);
    assert_eq!(session.expiry, CookieExpiry::Session);
    assert!(session.http_only);
}

#[test]
fn head_record_is_keyed_by_the_family() {
    let h = sample().set_as_head_token(1000);
    assert_eq!(h.key, "00000000-0000-0000-0000-00000000002a");
    assert_eq!(h.fingerprint, "R7;605800;0;42;");
    assert_eq!(h.ttl_seconds, REFRESH_TOKEN_LIFETIME as u64);
    assert_eq!(sample().revoke_family(), "00000000-0000-0000-0000-00000000002a");
    assert_eq!(sample().set_as_head_token(5800).ttl_seconds, 600000);
    assert_eq!(sample().set_as_head_token(700000).ttl_seconds, 1);
}

#[test]
fn head_check_compares_fingerprints() {
    let t = sample();
    assert!(t.is_head_token(&Some(t.fingerprint())));
    let other = t.renewed_at(2000);
    assert!(!other.is_head_token(&Some(t.fingerprint())));
    assert!(!t.is_head_token(&None));
}

fn alice(now: i64) -> Jwt {
    Jwt::issued_at(1, "alice".to_string(), "Alice".to_string(), true, now)
}

#[test]
fn identity_token_round_trip() {
    let j = alice(1000);
    let token = j.serialize(SECRET);
    let back = Jwt::decode(&token, SECRET, 1000).unwrap();
    assert_eq!(back.user_id, 1);
    assert_eq!(back.login, "alice");
    assert_eq!(back.name, "Alice");
    assert!(back.is_authorized);
    assert_eq!(back.iat, 1000);
    assert_eq!(back.exp, 1000 + JWT_LIFETIME);
}

#[test]
fn identity_token_with_separators_in_texts_round_trips() {
    let j = Jwt::issued_at(-4, "a.b;c:d".to_string(), "3:é.x".to_string(), false, 5);
    let token = j.serialize(SECRET);
    let back = Jwt::decode(&token, SECRET, 5).unwrap();
    assert_eq!(back.login, "a.b;c:d");
    assert_eq!(back.name, "3:é.x");
    assert_eq!(back.user_id, -4);
    assert!(!back.is_authorized);
}

#[test]
fn identity_token_payload_is_canonical() {
    let token = alice(1000).serialize(SECRET);
    assert!(token.starts_with("I1;5:alice5:Alice1;1000;1900;."));
}

#[test]
fn identity_token_expires_after_its_expiry() {
    let j = alice(1000);
    let token = j.serialize(SECRET);
    assert!(Jwt::decode(&token, SECRET, j.exp).is_ok());
    assert_eq!(Jwt::decode(&token, SECRET, j.exp + 1).unwrap_err(), TokenError::Expired);
}

#[test]
fn identity_token_errors() {
    let token = alice(1000).serialize(SECRET);
    assert_eq!(Jwt::decode(&token, "nope", 1000).unwrap_err(), TokenError::SignatureInvalid);
    assert_eq!(Jwt::decode("I1;", SECRET, 1000).unwrap_err(), TokenError::Malformed);
    let refresh = sample().encode(SECRET);
    assert_eq!(Jwt::decode(&refresh, SECRET, 1000).unwrap_err(), TokenError::Malformed);
}

#[test]
fn identity_cookie_is_persistent_and_readable() {
    let c = alice(1000).store_in_cookie(SECRET);
    assert_eq!(c.name, JWT_PATH);
    assert_eq!(c.path, "/");
    assert!(c.secure);
    assert!(!c.http_only);
    assert_eq!(c.expiry, CookieExpiry::Permanent);
}

#[test]
fn for_user_uses_the_clock() {
    let j = Jwt::for_user(3, "bob".to_string(), "Bob".to_string(), true);
    assert!(j.iat > 1_600_000_000);
    assert_eq!(j.exp, j.iat + JWT_LIFETIME);
}
