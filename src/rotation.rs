//! The rotation protocol: a presented refresh token is read, checked against
//! the head of its family, and either replaced by its renewal or, when it is
//! not the head, taken as a replay that revokes the whole family.
//!
//! The head store is outside this library. Its three operations are given
//! here as values over a map from family to head fingerprint; replacing the
//! head is one compare-and-swap, and a renewal always expires later than
//! the token it replaces, so that two rotations of one token cannot both
//! succeed.
use vstd::prelude::*;
use crate::codec::{sealed, TokenError};
use crate::refresh_token::{
    issued, lemma_fingerprint_identifies, lemma_refresh_round_trip, refresh_opened,
    remaining_seconds, remaining_seconds_at, renewed, uuid_text, RefreshToken,
};

verus! {

/// The next move of a rotation after the presented token was read.
#[derive(Clone, Copy, Debug, PartialEq, Eq, Structural)]
pub enum RotationStep {
    /// Ask the store to replace the head `presented` of the family by `renewed`.
    Swap { presented: RefreshToken, renewed: RefreshToken },
    /// The token was refused; the caller must authenticate again.
    Rejected(TokenError),
}

/// How a rotation ended.
#[derive(Clone, Copy, Debug, PartialEq, Eq, Structural)]
pub enum RotationOutcome {
    /// The presented token was the head; this is its replacement.
    Renewed(RefreshToken),
    /// The presented token was refused before the store was asked.
    Rejected(TokenError),
    /// The presented token was not the head: the family is to be revoked.
    Revoked(u128),
    /// The head store could not be reached; nothing was decided.
    StorageUnavailable,
}

/// The compare-and-swap that the store is asked for: under `key`, replace
/// `expected` by `replacement`, kept for `ttl_seconds`.
#[derive(Clone, Debug)]
pub struct HeadSwap {
    pub key: String,
    pub expected: String,
    pub replacement: String,
    pub ttl_seconds: u64,
}

/// Whether `fingerprint` is the head of `family` in `store`.
pub open spec fn is_head(store: Map<u128, Seq<char>>, family: u128, fingerprint: Seq<char>) -> bool {
    store.contains_key(family) && store[family] == fingerprint
}

/// The store after `fingerprint` is made the head of `family`.
pub open spec fn set_as_head(store: Map<u128, Seq<char>>, family: u128, fingerprint: Seq<char>) -> Map<
    u128,
    Seq<char>,
> {
    store.insert(family, fingerprint)
}

/// The store after `family` is revoked.
pub open spec fn revoke(store: Map<u128, Seq<char>>, family: u128) -> Map<u128, Seq<char>> {
    store.remove(family)
}

/// The store after the compare-and-swap, and whether it took place.
pub open spec fn swap_head(
    store: Map<u128, Seq<char>>,
    family: u128,
    expected: Seq<char>,
    replacement: Seq<char>,
) -> (Map<u128, Seq<char>>, bool) {
    if is_head(store, family, expected) {
        (set_as_head(store, family, replacement), true)
    } else {
        (store, false)
    }
}

/// One whole rotation of the token presented as `token` at `now`: the store
/// after it, and its outcome.
pub open spec fn rotate(store: Map<u128, Seq<char>>, token: Seq<char>, secret: Seq<char>, now: i64) -> (
    Map<u128, Seq<char>>,
    RotationOutcome,
) {
    match refresh_opened(token, secret, now) {
        Err(e) => (store, RotationOutcome::Rejected(e)),
        Ok(t) => {
            let (after, swapped) = swap_head(
                store,
                t.token_family,
                t.payload(),
                renewed(t, now).payload(),
            );
            if swapped {
                (after, RotationOutcome::Renewed(renewed(t, now)))
            } else {
                (revoke(after, t.token_family), RotationOutcome::Revoked(t.token_family))
            }
        },
    }
}

/// Reads the presented token and decides what to ask the store.
pub fn begin_rotation(token: &str, secret: &str, now: i64) -> (r: RotationStep)
    ensures
        r == match refresh_opened(token@, secret@, now) {
            Ok(t) => RotationStep::Swap { presented: t, renewed: renewed(t, now) },
            Err(e) => RotationStep::Rejected(e),
        },
{
    match RefreshToken::decode(token, secret, now) {
        Ok(t) => RotationStep::Swap { presented: t, renewed: t.renewed_at(now) },
        Err(e) => RotationStep::Rejected(e),
    }
}

/// The compare-and-swap, asked for at `now`, that replaces `presented` by
/// `renewed` as the head of their family, kept for the renewal's remaining
/// lifetime.
pub fn swap_request(presented: &RefreshToken, renewed: &RefreshToken, now: i64) -> (r: HeadSwap)
    ensures
        r.key@ == uuid_text(presented.token_family),
        r.expected@ == presented.payload(),
        r.replacement@ == renewed.payload(),
        r.ttl_seconds == remaining_seconds(renewed.exp, now),
{
    HeadSwap {
        key: presented.revoke_family(),
        expected: presented.fingerprint(),
        replacement: renewed.fingerprint(),
        ttl_seconds: remaining_seconds_at(renewed.exp, now),
    }
}

/// Ends a rotation once the store has answered whether the swap took place,
/// or has not answered at all.
pub fn finish_rotation(presented: &RefreshToken, renewed: &RefreshToken, swapped: Option<bool>) -> (r:
    RotationOutcome)
    ensures
        r == match swapped {
            Some(true) => RotationOutcome::Renewed(*renewed),
            Some(false) => RotationOutcome::Revoked(presented.token_family),
            None => RotationOutcome::StorageUnavailable,
        },
{
    match swapped {
        Some(true) => RotationOutcome::Renewed(*renewed),
        Some(false) => RotationOutcome::Revoked(presented.token_family),
        None => RotationOutcome::StorageUnavailable,
    }
}

/// Renewing a freshly created token keeps its family and session flag and
/// moves its expiry later, at whatever time it is renewed, provided its
/// expiry is not already the latest representable time.
pub proof fn lemma_create_then_renew(
    user_id: i32,
    session_only: bool,
    token_family: u128,
    created: i64,
    now: i64,
)
    requires
        issued(user_id, session_only, token_family, created).exp < i64::MAX,
    ensures
        ({
            let t = issued(user_id, session_only, token_family, created);
            let r = renewed(t, now);
            &&& r.token_family == t.token_family
            &&& r.session_only == t.session_only
            &&& r.user_id == t.user_id
            &&& r.exp > t.exp
        }),
{
}

/// Once a token's fingerprint is made the head of its family, that
/// fingerprint is the head and no other one is.
pub proof fn lemma_set_then_is_head(store: Map<u128, Seq<char>>, t: RefreshToken, other: Seq<char>)
    ensures
        is_head(set_as_head(store, t.token_family, t.payload()), t.token_family, t.payload()),
        other != t.payload() ==> !is_head(
            set_as_head(store, t.token_family, t.payload()),
            t.token_family,
            other,
        ),
{
}

/// After a family is revoked, no fingerprint is its head.
pub proof fn lemma_revoke_clears(store: Map<u128, Seq<char>>, family: u128, fingerprint: Seq<char>)
    ensures
        !is_head(revoke(store, family), family, fingerprint),
{
}

/// A genuine token that is not the head of its family revokes the family.
pub proof fn lemma_stale_token_revokes(
    store: Map<u128, Seq<char>>,
    t: RefreshToken,
    secret: Seq<char>,
    now: i64,
)
    requires
        now <= t.exp,
        !is_head(store, t.token_family, t.payload()),
    ensures
        rotate(store, sealed(t.payload(), secret), secret, now) == (
            revoke(store, t.token_family),
            RotationOutcome::Revoked(t.token_family),
        ),
{
    lemma_refresh_round_trip(t, secret, now);
}

/// Presenting one token twice never renews it twice: once it has been
/// rotated away, presenting it again is refused, and revokes its family
/// while it has not expired. This holds where the clock does not go back
/// between the two presentations, and the token's expiry is not already the
/// latest representable time.
pub proof fn lemma_second_presentation(
    store: Map<u128, Seq<char>>,
    t: RefreshToken,
    secret: Seq<char>,
    first: i64,
    second: i64,
)
    requires
        first <= second,
        t.exp < i64::MAX,
    ensures
        ({
            let token = sealed(t.payload(), secret);
            let (after, o1) = rotate(store, token, secret, first);
            let (_, o2) = rotate(after, token, secret, second);
            &&& !(o1 is Renewed && o2 is Renewed)
            &&& (second <= t.exp ==> o2 == RotationOutcome::Revoked(t.token_family))
        }),
{
    let token = sealed(t.payload(), secret);
    lemma_refresh_round_trip(t, secret, first);
    lemma_refresh_round_trip(t, secret, second);
    let r = renewed(t, first);
    if r.payload() == t.payload() {
        lemma_fingerprint_identifies(r, t);
    }
    let (after, o1) = rotate(store, token, secret, first);
    if first <= t.exp {
        assert(!is_head(after, t.token_family, t.payload()));
    } else {
        assert(after == store);
    }
}

/// Two rotations of the same head token, in either order: the first renews
/// it, the second revokes the family, and afterwards neither the presented
/// token nor its renewal rotates again while unexpired. This holds where the
/// token's expiry is not already the latest representable time.
pub proof fn lemma_concurrent_rotation(
    store: Map<u128, Seq<char>>,
    t: RefreshToken,
    secret: Seq<char>,
    first: i64,
    second: i64,
    later: i64,
)
    requires
        is_head(store, t.token_family, t.payload()),
        first <= t.exp,
        second <= t.exp,
        t.exp < i64::MAX,
    ensures
        ({
            let token = sealed(t.payload(), secret);
            let r = renewed(t, first);
            let (s1, o1) = rotate(store, token, secret, first);
            let (s2, o2) = rotate(s1, token, secret, second);
            let (_, o3) = rotate(s2, token, secret, later);
            let (_, o4) = rotate(s2, sealed(r.payload(), secret), secret, later);
            &&& o1 == RotationOutcome::Renewed(r)
            &&& o2 == RotationOutcome::Revoked(t.token_family)
            &&& !is_head(s2, t.token_family, t.payload())
            &&& !is_head(s2, t.token_family, r.payload())
            &&& (later <= t.exp ==> o3 == RotationOutcome::Revoked(t.token_family))
            &&& (later <= r.exp ==> o4 == RotationOutcome::Revoked(t.token_family))
        }),
{
    let r = renewed(t, first);
    lemma_refresh_round_trip(t, secret, first);
    lemma_refresh_round_trip(t, secret, second);
    lemma_refresh_round_trip(t, secret, later);
    lemma_refresh_round_trip(r, secret, later);
    if r.payload() == t.payload() {
        lemma_fingerprint_identifies(r, t);
    }
}

} // verus!
