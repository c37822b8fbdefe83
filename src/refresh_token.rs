//! Refresh tokens: long-lived credentials bound to a rotation family, their
//! signed encoding, the cookie that carries them, and their head record.
use vstd::prelude::*;
use vstd::arithmetic::power2::pow2;
use crate::codec::{
    chars_of, hs256_signature, same_chars, seal, sealed, signature_matches, string_of, TokenError,
};
use crate::fields::{
    bool_field, field_at, int_field, lemma_field_at_char, lemma_field_at_split, lemma_int_field_unique, lemma_field_at_whole, push_bool,
    push_int, push_nat, read_bool, read_int, read_nat,
};

verus! {

/// How long a refresh token stays valid after it is issued or renewed, in seconds.
pub const REFRESH_TOKEN_LIFETIME: i64 = 604800;

/// The name of the cookie that carries the refresh token.
pub const REFRESH_TOKEN_PATH: &'static str = "refresh_token";

/// When a cookie ends.
#[derive(Clone, Copy, Debug, PartialEq, Eq, Structural)]
pub enum CookieExpiry {
    /// With the browser session.
    Session,
    /// At a fixed time, in seconds since the Unix epoch.
    At(i64),
    /// Far in the future.
    Permanent,
    /// At once: the cookie is removed.
    Removal,
}

/// A cookie as it is to be handed to the client.
#[derive(Clone, Debug)]
pub struct CookieSpec {
    pub name: String,
    pub value: String,
    pub path: String,
    pub secure: bool,
    pub http_only: bool,
    pub expiry: CookieExpiry,
}

/// What the head store is to keep for a family: the fingerprint under the
/// family's key, for `ttl_seconds`.
#[derive(Clone, Debug)]
pub struct HeadRecord {
    pub key: String,
    pub fingerprint: String,
    pub ttl_seconds: u64,
}

/// A refresh token.
#[derive(Clone, Copy, Debug, PartialEq, Eq, Structural)]
pub struct RefreshToken {
    /// The user the token belongs to.
    pub user_id: i32,
    /// When the token expires, in seconds since the Unix epoch.
    pub exp: i64,
    /// Whether the cookie lasts only as long as the browser session.
    pub session_only: bool,
    /// The rotation family, fixed at first issuance and kept by every renewal.
    pub token_family: u128,
}

/// The expiry of a token issued at `now`; the latest representable time
/// where the sum would not fit.
pub open spec fn expiry_from(now: i64) -> i64 {
    if now <= i64::MAX - REFRESH_TOKEN_LIFETIME {
        (now + REFRESH_TOKEN_LIFETIME) as i64
    } else {
        i64::MAX
    }
}

fn expiry_at(now: i64) -> (r: i64)
    ensures
        r == expiry_from(now),
{
    if now <= i64::MAX - REFRESH_TOKEN_LIFETIME {
        now + REFRESH_TOKEN_LIFETIME
    } else {
        i64::MAX
    }
}

/// The expiry of the renewal at `now` of a token that expires at `old`: one
/// lifetime from now, but always strictly later than `old` unless `old` is
/// already the latest representable time.
pub open spec fn renewal_expiry(old: i64, now: i64) -> i64 {
    if expiry_from(now) > old {
        expiry_from(now)
    } else if old < i64::MAX {
        (old + 1) as i64
    } else {
        i64::MAX
    }
}

fn renewal_expiry_at(old: i64, now: i64) -> (r: i64)
    ensures
        r == renewal_expiry(old, now),
{
    let fresh = expiry_at(now);
    if fresh > old {
        fresh
    } else if old < i64::MAX {
        old + 1
    } else {
        i64::MAX
    }
}

/// How long the head record of a token that expires at `exp` is kept when
/// written at `now`: the token's remaining lifetime, and one second for a
/// token whose lifetime is already over.
pub open spec fn remaining_seconds(exp: i64, now: i64) -> u64 {
    if exp > now {
        (exp - now) as u64
    } else {
        1
    }
}

pub(crate) fn remaining_seconds_at(exp: i64, now: i64) -> (r: u64)
    ensures
        r == remaining_seconds(exp, now),
{
    if exp > now {
        (exp as i128 - now as i128) as u64
    } else {
        1
    }
}

/// Relies on `uuid::Uuid::new_v4`: a random identifier; nothing is known of its value.
#[verifier::external_body]
fn random_family() -> (r: u128) {
    uuid::Uuid::new_v4().as_u128()
}

/// Relies on `time::OffsetDateTime::now_utc`: the current time in whole
/// seconds since the Unix epoch; nothing is known of its value.
#[verifier::external_body]
pub(crate) fn now_timestamp() -> (r: i64) {
    time::OffsetDateTime::now_utc().unix_timestamp()
}

/// The lower-case hexadecimal digit of `n`, below sixteen.
pub open spec fn hex_digit(n: int) -> char {
    if n < 10 {
        (n + 48) as char
    } else {
        (n + 87) as char
    }
}

/// The `i`-th hexadecimal digit of `value`, counted from the most
/// significant of its thirty-two.
pub open spec fn nibble(value: u128, i: int) -> int {
    (value as int / pow2((4 * (31 - i)) as nat) as int) % 16
}

/// The digits `start` to `start + len` of `value`.
pub open spec fn hex_group(value: u128, start: int, len: nat) -> Seq<char> {
    Seq::new(len, |j: int| hex_digit(nibble(value, start + j)))
}

/// The hyphenated lower-case text of a UUID: its thirty-two hexadecimal
/// digits, most significant first, in groups of eight, four, four, four and
/// twelve separated by `-`.
pub open spec fn uuid_text(value: u128) -> Seq<char> {
    hex_group(value, 0, 8) + seq!['-'] + hex_group(value, 8, 4) + seq!['-'] + hex_group(value, 12, 4)
        + seq!['-'] + hex_group(value, 16, 4) + seq!['-'] + hex_group(value, 20, 12)
}

/// Relies on `uuid::Uuid::from_u128`, which takes the value big-endian, and
/// on `Display` for `uuid::Uuid`: the lower-case hyphenated form.
#[verifier::external_body]
pub(crate) fn family_key(family: u128) -> (r: String)
    ensures
        r@ == uuid_text(family),
{
    uuid::Uuid::from_u128(family).to_string()
}

/// The token issued at `now` to `user_id` as the first of `token_family`.
pub open spec fn issued(user_id: i32, session_only: bool, token_family: u128, now: i64) -> RefreshToken {
    RefreshToken { user_id, exp: expiry_from(now), session_only, token_family }
}

/// The token that replaces `t` at `now`.
pub open spec fn renewed(t: RefreshToken, now: i64) -> RefreshToken {
    RefreshToken {
        user_id: t.user_id,
        exp: renewal_expiry(t.exp, now),
        session_only: t.session_only,
        token_family: t.token_family,
    }
}

/// `token` starts with the payload of `t`, then a `.`.
pub open spec fn leads_with(token: Seq<char>, t: RefreshToken) -> bool {
    &&& t.payload().len() < token.len()
    &&& token.subrange(0, t.payload().len() as int) == t.payload()
    &&& token[t.payload().len() as int] == '.'
}

/// The refresh token that a token presented as `token` under `secret` at
/// time `now` stands for, or why it is refused.
pub open spec fn refresh_opened(token: Seq<char>, secret: Seq<char>, now: i64) -> Result<
    RefreshToken,
    TokenError,
> {
    if exists|t: RefreshToken| leads_with(token, t) {
        let t = choose|t: RefreshToken| leads_with(token, t);
        let sig = token.subrange(t.payload().len() + 1int, token.len() as int);
        if sig != hs256_signature(t.payload(), secret) {
            Err(TokenError::SignatureInvalid)
        } else if t.exp < now {
            Err(TokenError::Expired)
        } else {
            Ok(t)
        }
    } else {
        Err(TokenError::Malformed)
    }
}

/// What a reader of the payload at the start of `s` found decides how the
/// token `s` opens.
proof fn lemma_refresh_opened(
    s: Seq<char>,
    secret: Seq<char>,
    now: i64,
    read: Option<(RefreshToken, usize)>,
)
    requires
        read matches Some((t, e)) ==> e == t.payload().len() && field_at(s, 0, t.payload()),
        forall|t: RefreshToken|
            field_at(s, 0, #[trigger] t.payload()) ==> read == Some((t, t.payload().len() as usize)),
    ensures
        refresh_opened(s, secret, now) == match read {
            None => Err(TokenError::Malformed),
            Some((t, e)) => if e < s.len() && s[e as int] == '.' {
                if s.subrange(e + 1, s.len() as int) != hs256_signature(
                    s.subrange(0, e as int),
                    secret,
                ) {
                    Err(TokenError::SignatureInvalid)
                } else if t.exp < now {
                    Err(TokenError::Expired)
                } else {
                    Ok(t)
                }
            } else {
                Err(TokenError::Malformed)
            },
        },
{
    if exists|t: RefreshToken| leads_with(s, t) {
        let t1 = choose|t: RefreshToken| leads_with(s, t);
        let e = t1.payload().len() as int;
        assert(field_at(s, 0, t1.payload()));
        assert(read == Some((t1, e as usize)));
    } else {
        if read is Some {
            let (t, e) = read->0;
            if e < s.len() && s[e as int] == '.' {
                assert(leads_with(s, t));
            }
        }
    }
}

/// The positions of a token's fields within its payload.
pub open spec fn payload_fields_at(s: Seq<char>, t: RefreshToken) -> bool {
    let u = int_field(t.user_id as int);
    let x = int_field(t.exp as int);
    let b = bool_field(t.session_only);
    &&& field_at(s, 1, int_field((t.user_id as i64) as int))
    &&& field_at(s, (1 + u.len()) as int, int_field(t.exp as int))
    &&& field_at(s, (1 + u.len() + x.len()) as int, bool_field(t.session_only))
    &&& field_at(s, (1 + u.len() + x.len() + b.len()) as int, int_field(t.token_family as int))
}

proof fn lemma_payload_fields(s: Seq<char>, t: RefreshToken)
    requires
        field_at(s, 0, t.payload()),
    ensures
        payload_fields_at(s, t),
{
    let a = seq!['R'];
    let u = int_field(t.user_id as int);
    let x = int_field(t.exp as int);
    let b = bool_field(t.session_only);
    let f = int_field(t.token_family as int);
    assert(t.payload() =~= a + (u + (x + (b + f))));
    lemma_field_at_split(s, 0, a, u + (x + (b + f)));
    lemma_field_at_split(s, 1, u, x + (b + f));
    lemma_field_at_split(s, (1 + u.len()) as int, x, b + f);
    lemma_field_at_split(s, (1 + u.len() + x.len()) as int, b, f);
}

/// A text holds the payload of at most one token.
pub proof fn lemma_payload_unique(s: Seq<char>, t1: RefreshToken, t2: RefreshToken)
    requires
        field_at(s, 0, t1.payload()),
        field_at(s, 0, t2.payload()),
    ensures
        t1 == t2,
{
    lemma_payload_fields(s, t1);
    lemma_payload_fields(s, t2);
    lemma_int_field_unique(s, 1, t1.user_id as int, t2.user_id as int);
    let at1 = (1 + int_field(t1.user_id as int).len()) as int;
    lemma_int_field_unique(s, at1, t1.exp as int, t2.exp as int);
    let at2 = at1 + int_field(t1.exp as int).len();
    lemma_int_field_unique(
        s,
        at2,
        if t1.session_only { 1 } else { 0 },
        if t2.session_only { 1 } else { 0 },
    );
    let at3 = at2 + bool_field(t1.session_only).len();
    lemma_int_field_unique(s, at3, t1.token_family as int, t2.token_family as int);
}

/// Two tokens share a fingerprint only if they are the same token.
pub proof fn lemma_fingerprint_identifies(t1: RefreshToken, t2: RefreshToken)
    requires
        t1.payload() == t2.payload(),
    ensures
        t1 == t2,
{
    assert(t1.payload().subrange(0, t1.payload().len() as int) =~= t1.payload());
    lemma_payload_unique(t1.payload(), t1, t2);
}

/// A refresh token reads back from its own encoding under the same secret,
/// unless its expiry has passed.
pub proof fn lemma_refresh_round_trip(t: RefreshToken, secret: Seq<char>, now: i64)
    ensures
        refresh_opened(sealed(t.payload(), secret), secret, now) == if t.exp < now {
            Err(TokenError::Expired)
        } else {
            Ok(t)
        },
{
    let s = sealed(t.payload(), secret);
    let sig = hs256_signature(t.payload(), secret);
    assert(s =~= t.payload() + (seq!['.'] + sig));
    lemma_field_at_whole(s, t.payload(), seq!['.'] + sig);
    lemma_field_at_split(s, t.payload().len() as int, seq!['.'], sig);
    lemma_field_at_char(s, t.payload().len() as int, '.');
    assert(leads_with(s, t));
    let t1 = choose|t1: RefreshToken| leads_with(s, t1);
    assert(field_at(s, 0, t1.payload()));
    lemma_payload_unique(s, t, t1);
    assert(s.subrange(t.payload().len() + 1int, s.len() as int) =~= sig);
}

impl RefreshToken {
    /// The canonical text of the token's fields.
    pub open spec fn payload(self) -> Seq<char> {
        seq!['R'] + int_field(self.user_id as int) + int_field(self.exp as int) + bool_field(
            self.session_only,
        ) + int_field(self.token_family as int)
    }

    /// The token issued at `now` to `user_id` as the first of `token_family`.
    pub fn issued_at(user_id: i32, session_only: bool, token_family: u128, now: i64) -> (r: Self)
        ensures
            r == issued(user_id, session_only, token_family, now),
    {
        RefreshToken { user_id, exp: expiry_at(now), session_only, token_family }
    }

    /// A token for `user_id` in a new random family, expiring one lifetime from now.
    pub fn new(user_id: i32, session_only: bool) -> (r: Self)
        ensures
            r.user_id == user_id,
            r.session_only == session_only,
            exists|now: i64| r.exp == expiry_from(now),
    {
        Self::issued_at(user_id, session_only, random_family(), now_timestamp())
    }

    /// The token that replaces this one at `now`: same user, flag and family,
    /// a fresh expiry that is later than the current one.
    pub fn renewed_at(&self, now: i64) -> (r: Self)
        ensures
            r == renewed(*self, now),
            self.exp < i64::MAX ==> r.exp > self.exp,
    {
        RefreshToken {
            user_id: self.user_id,
            exp: renewal_expiry_at(self.exp, now),
            session_only: self.session_only,
            token_family: self.token_family,
        }
    }

    /// The token that replaces this one now.
    pub fn renew(&self) -> (r: Self)
        ensures
            r.user_id == self.user_id,
            r.session_only == self.session_only,
            r.token_family == self.token_family,
            exists|now: i64| r.exp == renewal_expiry(self.exp, now),
            self.exp < i64::MAX ==> r.exp > self.exp,
    {
        self.renewed_at(now_timestamp())
    }

    fn payload_chars(&self) -> (r: Vec<char>)
        ensures
            r@ == self.payload(),
    {
        let mut out: Vec<char> = Vec::new();
        out.push('R');
        push_int(&mut out, self.user_id as i128);
        push_int(&mut out, self.exp as i128);
        push_bool(&mut out, self.session_only);
        push_nat(&mut out, self.token_family);
        proof {
            assert(out@ =~= self.payload());
        }
        out
    }

    /// The fingerprint of the token: the canonical text of all its fields, so
    /// that two tokens share a fingerprint exactly when they are equal.
    pub fn fingerprint(&self) -> (r: String)
        ensures
            r@ == self.payload(),
    {
        string_of(&self.payload_chars())
    }

    /// The token signed under `secret`.
    pub fn encode(&self, secret: &str) -> (r: String)
        ensures
            r@ == sealed(self.payload(), secret@),
    {
        seal(&self.payload_chars(), secret)
    }

    /// Reads a token's fields from the start of `s`.
    #[verifier::rlimit(40)]
    fn read_payload(s: &Vec<char>) -> (r: Option<(RefreshToken, usize)>)
        ensures
            r matches Some((t, e)) ==> e == t.payload().len() && field_at(s@, 0, t.payload()),
            forall|t: RefreshToken|
                field_at(s@, 0, #[trigger] t.payload()) ==> r == Some((t, t.payload().len() as usize)),
    {
        if s.len() == 0 || s[0] != 'R' {
            proof {
                assert forall|t: RefreshToken| !field_at(s@, 0, #[trigger] t.payload()) by {
                    if field_at(s@, 0, t.payload()) {
                        assert(s@[0] == t.payload()[0]);
                    }
                }
            }
            return None;
        }
        let ghost a = seq!['R'];
        proof {
            assert forall|t: RefreshToken| field_at(s@, 0, #[trigger] t.payload()) implies
                payload_fields_at(s@, t) by {
                lemma_payload_fields(s@, t);
            }
        }
        let (user_id, at1) = match read_int(s, 1) {
            Some(v) => v,
            None => return None,
        };
        if user_id < i32::MIN as i64 || user_id > i32::MAX as i64 {
            return None;
        }
        let (exp, at2) = match read_int(s, at1) {
            Some(v) => v,
            None => return None,
        };
        let (session_only, at3) = match read_bool(s, at2) {
            Some(v) => v,
            None => return None,
        };
        let (token_family, at4) = match read_nat(s, at3) {
            Some(v) => v,
            None => return None,
        };
        let t = RefreshToken { user_id: user_id as i32, exp, session_only, token_family };
        proof {
            let u = int_field(t.user_id as int);
            let x = int_field(t.exp as int);
            let b = bool_field(t.session_only);
            let f = int_field(t.token_family as int);
            assert(s@.subrange(0, at4 as int) =~= a + s@.subrange(1, at1 as int) + s@.subrange(
                at1 as int,
                at2 as int,
            ) + s@.subrange(at2 as int, at3 as int) + s@.subrange(at3 as int, at4 as int));
            assert(s@.subrange(0, 1) =~= a);
            assert(t.payload() =~= a + u + x + b + f);
        }
        Some((t, at4))
    }

    /// Reads a token presented as `token`: its fields, its signature under
    /// `secret`, then its expiry against `now`.
    pub fn decode(token: &str, secret: &str, now: i64) -> (r: Result<RefreshToken, TokenError>)
        ensures
            r == refresh_opened(token@, secret@, now),
    {
        let s = chars_of(token);
        let read = Self::read_payload(&s);
        proof {
            lemma_refresh_opened(s@, secret@, now, read);
        }
        match read {
            None => Err(TokenError::Malformed),
            Some((t, end)) => {
                if end >= s.len() || s[end] != '.' {
                    return Err(TokenError::Malformed);
                }
                if !signature_matches(&s, end, secret) {
                    return Err(TokenError::SignatureInvalid);
                }
                if t.exp < now {
                    return Err(TokenError::Expired);
                }
                Ok(t)
            },
        }
    }

    /// The cookie that carries this token signed under `secret`: at the root
    /// path, secure and hidden from scripts, ending with the browser session
    /// or at the token's expiry.
    pub fn store_in_jar(&self, secret: &str) -> (r: CookieSpec)
        ensures
            r.name@ == REFRESH_TOKEN_PATH@,
            r.value@ == sealed(self.payload(), secret@),
            r.path@ == seq!['/'],
            r.secure,
            r.http_only,
            r.expiry == (if self.session_only {
                CookieExpiry::Session
            } else {
                CookieExpiry::At(self.exp)
            }),
    {
        let expiry = if self.session_only {
            CookieExpiry::Session
        } else {
            CookieExpiry::At(self.exp)
        };
        proof {
            reveal_strlit("/");
        }
        CookieSpec {
            name: REFRESH_TOKEN_PATH.to_string(),
            value: self.encode(secret),
            path: "/".to_string(),
            secure: true,
            http_only: true,
            expiry,
        }
    }

    /// The record that makes this token the head of its family when written
    /// at `now`: its fingerprint under the family's key, kept for the token's
    /// remaining lifetime.
    pub fn set_as_head_token(&self, now: i64) -> (r: HeadRecord)
        ensures
            r.key@ == uuid_text(self.token_family),
            r.fingerprint@ == self.payload(),
            r.ttl_seconds == remaining_seconds(self.exp, now),
    {
        HeadRecord {
            key: family_key(self.token_family),
            fingerprint: self.fingerprint(),
            ttl_seconds: remaining_seconds_at(self.exp, now),
        }
    }

    /// Whether this token is the head of its family, given what the store
    /// holds under the family's key.
    pub fn is_head_token(&self, stored: &Option<String>) -> (r: bool)
        ensures
            r == (stored matches Some(h) && h@ == self.payload()),
    {
        match stored {
            None => false,
            Some(h) => {
                let mine = self.payload_chars();
                let theirs = chars_of(h.as_str());
                same_chars(&mine, &theirs)
            },
        }
    }

    /// The key under which the store holds this token's family.
    pub fn revoke_family(&self) -> (r: String)
        ensures
            r@ == uuid_text(self.token_family),
    {
        family_key(self.token_family)
    }
}

} // verus!
