use std::collections::HashMap;

use tchatchers_session::codec::TokenError;
use tchatchers_session::refresh_token::RefreshToken;
use tchatchers_session::rotation::{
    begin_rotation, finish_rotation, swap_request, RotationOutcome, RotationStep,
};

const SECRET: &str = "refresh-secret";

/// A head store kept in memory: key to fingerprint.
struct Heads(HashMap<String, String>);

impl Heads {
    fn with_head(t: &RefreshToken) -> Heads {
        let h = t.set_as_head_token(1000);
        let mut m = HashMap::new();
        m.insert(h.key, h.fingerprint);
        Heads(m)
    }

    fn swap(&mut self, key: &str, expected: &str, replacement: &str) -> bool {
        match self.0.get(key) {
            Some(v) if v == expected => {
                self.0.insert(key.to_string(), replacement.to_string());
                true
            }
            _ => false,
        }
    }

    fn rotate(&mut self, token: &str, now: i64) -> RotationOutcome {
        match begin_rotation(token, SECRET, now) {
            RotationStep::Rejected(e) => RotationOutcome::Rejected(e),
            RotationStep::Swap { presented, renewed } => {
                let req = swap_request(&presented, &renewed, now);
                let swapped = self.swap(&req.key, &req.expected, &req.replacement);
                let outcome = finish_rotation(&presented, &renewed, Some(swapped));
                if let RotationOutcome::Revoked(_) = outcome {
                    self.0.remove(&presented.revoke_family());
                }
                outcome
            }
        }
    }

    fn is_head(&self, t: &RefreshToken) -> bool {
        t.is_head_token(&self.0.get(&t.revoke_family()).cloned())
    }
}

fn login_token() -> RefreshToken {
    RefreshToken::issued_at(11, false, 0xfeed, 1000)
}

#[test]
fn set_then_is_head() {
    let t = login_token();
    let heads = Heads::with_head(&t);
    assert!(heads.is_head(&t));
    let sibling = t.renewed_at(1500);
    assert!(!heads.is_head(&sibling));
}

#[test]
fn revoke_clears_every_fingerprint() {
    let t = login_token();
    let mut heads = Heads::with_head(&t);
    heads.0.remove(&t.revoke_family());
    assert!(!heads.is_head(&t));
    assert!(!heads.is_head(&t.renewed_at(2000)));
}

#[test]
fn first_rotation_renews_within_the_family() {
    let t = login_token();
    let mut heads = Heads::with_head(&t);
    let outcome = heads.rotate(&t.encode(SECRET), 2000);
    let renewed = match outcome {
        RotationOutcome::Renewed(r) => r,
        other => panic!("expected a renewal, got {other:?}"),
    };
    assert_eq!(renewed.token_family, t.token_family);
    assert_eq!(renewed.user_id, t.user_id);
    assert_eq!(renewed.session_only, t.session_only);
    assert_ne!(renewed.fingerprint(), t.fingerprint());
    assert!(heads.is_head(&renewed));
    assert!(!heads.is_head(&t));
}

#[test]
fn second_presentation_is_revoked() {
    let t = login_token();
    let mut heads = Heads::with_head(&t);
    let token = t.encode(SECRET);
    assert!(matches!(heads.rotate(&token, 2000), RotationOutcome::Renewed(_)));
    assert_eq!(heads.rotate(&token, 2001), RotationOutcome::Revoked(t.token_family));
    assert_eq!(heads.rotate(&token, 2002), RotationOutcome::Revoked(t.token_family));
}

#[test]
fn concurrent_rotations_renew_once() {
    let t = login_token();
    let mut heads = Heads::with_head(&t);
    let token = t.encode(SECRET);
    // Both requests read the same token; the store serialises the swaps.
    let a = begin_rotation(&token, SECRET, 2000);
    let b = begin_rotation(&token, SECRET, 2000);
    let mut outcomes = Vec::new();
    let mut renewals = Vec::new();
    for step in [a, b] {
        if let RotationStep::Swap { presented, renewed } = step {
            let req = swap_request(&presented, &renewed, 2000);
            let swapped = heads.swap(&req.key, &req.expected, &req.replacement);
            let outcome = finish_rotation(&presented, &renewed, Some(swapped));
            if let RotationOutcome::Revoked(_) = outcome {
                heads.0.remove(&presented.revoke_family());
            }
            if let RotationOutcome::Renewed(r) = outcome {
                renewals.push(r);
            }
            outcomes.push(outcome);
        }
    }
    assert_eq!(renewals.len(), 1);
    assert_eq!(outcomes[1], RotationOutcome::Revoked(t.token_family));
    let renewed = renewals[0];
    assert!(!heads.is_head(&renewed));
    assert_eq!(heads.rotate(&token, 2100), RotationOutcome::Revoked(t.token_family));
    assert_eq!(
        heads.rotate(&renewed.encode(SECRET), 2100),
        RotationOutcome::Revoked(t.token_family)
    );
}

#[test]
fn refused_tokens_do_not_touch_the_store() {
    let t = login_token();
    let mut heads = Heads::with_head(&t);
    assert_eq!(
        heads.rotate(&t.encode("wrong"), 2000),
        RotationOutcome::Rejected(TokenError::SignatureInvalid)
    );
    assert_eq!(
        heads.rotate(&t.encode(SECRET), t.exp + 1),
        RotationOutcome::Rejected(TokenError::Expired)
    );
    assert_eq!(heads.rotate("nonsense", 2000), RotationOutcome::Rejected(TokenError::Malformed));
    assert!(heads.is_head(&t));
}

#[test]
fn swap_request_names_both_fingerprints() {
    let t = login_token();
    let r = t.renewed_at(3000);
    let req = swap_request(&t, &r, 3000);
    assert_eq!(req.ttl_seconds, (r.exp - 3000) as u64);
    assert_eq!(req.key, t.revoke_family());
    assert_eq!(req.expected, t.fingerprint());
    assert_eq!(req.replacement, r.fingerprint());
}

#[test]
fn rotations_in_the_issuing_second_renew_once() {
    let t = login_token();
    let mut heads = Heads::with_head(&t);
    let token = t.encode(SECRET);
    let renewed = match heads.rotate(&token, 1000) {
        RotationOutcome::Renewed(r) => r,
        other => panic!("expected a renewal, got {other:?}"),
    };
    assert_eq!(renewed.exp, t.exp + 1);
    assert_ne!(renewed.fingerprint(), t.fingerprint());
    assert_eq!(renewed.token_family, t.token_family);
    assert!(!heads.is_head(&t));
    assert_eq!(heads.rotate(&token, 1000), RotationOutcome::Revoked(t.token_family));
    assert_eq!(
        heads.rotate(&renewed.encode(SECRET), 1000),
        RotationOutcome::Revoked(t.token_family)
    );
}

#[test]
fn concurrent_rotations_in_the_issuing_second_renew_once() {
    let t = login_token();
    let mut heads = Heads::with_head(&t);
    let token = t.encode(SECRET);
    let steps = [begin_rotation(&token, SECRET, 1000), begin_rotation(&token, SECRET, 1000)];
    let mut renewed_count = 0;
    for step in steps {
        if let RotationStep::Swap { presented, renewed } = step {
            let req = swap_request(&presented, &renewed, 1000);
            let swapped = heads.swap(&req.key, &req.expected, &req.replacement);
            if let RotationOutcome::Renewed(_) = finish_rotation(&presented, &renewed, Some(swapped)) {
                renewed_count += 1;
            }
        }
    }
    assert_eq!(renewed_count, 1);
    assert!(!heads.is_head(&t));
}

#[test]
fn unreachable_store_decides_nothing() {
    let t = login_token();
    let r = t.renewed_at(2000);
    assert_eq!(finish_rotation(&t, &r, None), RotationOutcome::StorageUnavailable);
}
