//! What the account endpoints answer: each takes what the stores returned
//! and decides the status, the message, the cookies to set and the head
//! record to write or revoke.
use vstd::prelude::*;
use magic_crypt::MagicCryptTrait;
use crate::codec::sealed;
use crate::jwt::{jwt_expiry_from, removal_cookie, Claims, Jwt, JWT_PATH};
use crate::refresh_token::{
    family_key, issued, remaining_seconds, uuid_text, CookieExpiry, CookieSpec, HeadRecord, RefreshToken,
    REFRESH_TOKEN_PATH,
};
use crate::rotation::RotationOutcome;
use crate::validator::{AuthenticableUser, InsertableUser};

verus! {

pub const OK: u16 = 200;
pub const CREATED: u16 = 201;
pub const BAD_REQUEST: u16 = 400;
pub const UNAUTHORIZED: u16 = 401;
pub const FORBIDDEN: u16 = 403;
pub const NOT_FOUND: u16 = 404;
pub const CONFLICT: u16 = 409;
pub const INTERNAL_SERVER_ERROR: u16 = 500;

/// How long a failed login waits before it answers, in seconds.
pub const AUTH_FAILURE_DELAY_SECONDS: u64 = 3;

pub const LOGIN_TAKEN_MESSAGE: &'static str = "A user with a similar login already exists";
pub const USER_CREATED_MESSAGE: &'static str = "User created with success";
pub const FAILURE_MESSAGE: &'static str = "An error happened";
pub const BAD_CREDENTIALS_MESSAGE: &'static str =
    "We couldn't connect you, please ensure that the login and password are correct before trying again";
pub const ACCESS_REVOKED_MESSAGE: &'static str =
    "This user's access has been revoked, contact an admin if you believe you should access this service";
pub const NOT_LOGGED_IN_MESSAGE: &'static str = "You aren't logged in.";
pub const USER_UPDATED_MESSAGE: &'static str = "User updated with success";
pub const FOREIGN_UPDATE_MESSAGE: &'static str = "You can't update another user";
pub const SESSION_ENDED_MESSAGE: &'static str = "Your session has ended, please log in again.";

/// A user as the relational store returns it.
#[derive(Clone, Debug)]
pub struct UserRecord {
    pub id: i32,
    pub login: String,
    pub name: String,
    pub is_authorized: bool,
}

/// The answer of an endpoint.
#[derive(Clone, Debug)]
pub struct HttpReply {
    pub status: u16,
    pub message: String,
    /// How long to wait before answering, in seconds.
    pub delay_seconds: u64,
    pub cookies: Vec<CookieSpec>,
    /// A head record to write to the store before answering.
    pub head: Option<HeadRecord>,
    /// The key of a family to revoke in the store before answering.
    pub revoke: Option<String>,
}

/// A reply with a status and a message, and nothing else to do.
pub open spec fn plain(r: HttpReply, status: u16, message: Seq<char>) -> bool {
    &&& r.status == status
    &&& r.message@ == message
    &&& r.delay_seconds == 0
    &&& r.cookies@.len() == 0
    &&& r.head is None
    &&& r.revoke is None
}

fn plain_reply(status: u16, message: &str) -> (r: HttpReply)
    ensures
        plain(r, status, message@),
{
    HttpReply {
        status,
        message: message.to_string(),
        delay_seconds: 0,
        cookies: Vec::new(),
        head: None,
        revoke: None,
    }
}

/// The identity claims for `user`, issued at `now`.
pub open spec fn claims_for(user: UserRecord, now: i64) -> Claims {
    Claims {
        user_id: user.id,
        login: user.login@,
        name: user.name@,
        is_authorized: user.is_authorized,
        iat: now,
        exp: jwt_expiry_from(now),
    }
}

/// The cookie that carries identity `claims` signed under `secret`.
pub open spec fn is_identity_cookie(c: CookieSpec, claims: Claims, secret: Seq<char>) -> bool {
    &&& c.name@ == JWT_PATH@
    &&& c.value@ == sealed(claims.payload(), secret)
    &&& c.path@ == seq!['/']
    &&& c.secure
    &&& !c.http_only
    &&& c.expiry == CookieExpiry::Permanent
}

/// The cookie that carries refresh token `t` signed under `secret`.
pub open spec fn is_refresh_cookie(c: CookieSpec, t: RefreshToken, secret: Seq<char>) -> bool {
    &&& c.name@ == REFRESH_TOKEN_PATH@
    &&& c.value@ == sealed(t.payload(), secret)
    &&& c.path@ == seq!['/']
    &&& c.secure
    &&& c.http_only
    &&& c.expiry == if t.session_only {
        CookieExpiry::Session
    } else {
        CookieExpiry::At(t.exp)
    }
}

/// The AES-256 encryption of `text` under `key`, in base64.
pub uninterp spec fn encrypted_base64(key: Seq<char>, text: Seq<char>) -> Seq<char>;

/// Relies on `magic_crypt::MagicCrypt256` built without an IV and its
/// `encrypt_str_to_base64`: with a fixed zero IV the result depends on the
/// key and the text alone.
#[verifier::external_body]
fn encrypt_to_base64(key: &str, text: &str) -> (r: String)
    ensures
        r@ == encrypted_base64(key@, text@),
{
    magic_crypt::MagicCrypt256::new(key, None::<String>).encrypt_str_to_base64(text)
}

/// The credentials as the store holds them: the same login, the password
/// encrypted under `key`.
pub fn credentials_for_lookup(user: &AuthenticableUser, key: &str) -> (r: AuthenticableUser)
    ensures
        r.login@ == user.login@,
        r.password@ == encrypted_base64(key@, user.password@),
{
    AuthenticableUser {
        login: user.login.clone(),
        password: encrypt_to_base64(key, user.password.as_str()),
    }
}

/// The new account as the store is to hold it: the same login and name,
/// the password encrypted under `key`.
pub fn insertable_for_storage(user: &InsertableUser, key: &str) -> (r: InsertableUser)
    ensures
        r.login@ == user.login@,
        r.name@ == user.name@,
        r.password@ == encrypted_base64(key@, user.password@),
{
    InsertableUser {
        login: user.login.clone(),
        name: user.name.clone(),
        password: encrypt_to_base64(key, user.password.as_str()),
    }
}

/// The answer to a sign-up: refused when the login is taken, else created
/// when the store accepted the new user, else a failure.
pub fn create_user(login_taken: bool, inserted: bool) -> (r: HttpReply)
    ensures
        login_taken ==> plain(r, BAD_REQUEST, LOGIN_TAKEN_MESSAGE@),
        !login_taken && inserted ==> plain(r, CREATED, USER_CREATED_MESSAGE@),
        !login_taken && !inserted ==> plain(r, INTERNAL_SERVER_ERROR, FAILURE_MESSAGE@),
{
    if login_taken {
        plain_reply(BAD_REQUEST, LOGIN_TAKEN_MESSAGE)
    } else if inserted {
        plain_reply(CREATED, USER_CREATED_MESSAGE)
    } else {
        plain_reply(INTERNAL_SERVER_ERROR, FAILURE_MESSAGE)
    }
}

/// The status of a login availability check: free, or in conflict.
pub fn login_exists(taken: bool) -> (r: u16)
    ensures
        r == if taken {
            CONFLICT
        } else {
            OK
        },
{
    if taken {
        CONFLICT
    } else {
        OK
    }
}

/// The answer to a login. No matching user: not found, after the failure
/// delay, with no cookie. A user whose access was revoked: unauthorized.
/// Otherwise both cookies, and the new refresh token made head of its new
/// family.
pub fn authenticate(
    found: &Option<UserRecord>,
    session_only: bool,
    jwt_secret: &str,
    refresh_secret: &str,
    now: i64,
    token_family: u128,
) -> (r: HttpReply)
    ensures
        found is None ==> {
            &&& r.status == NOT_FOUND
            &&& r.message@ == BAD_CREDENTIALS_MESSAGE@
            &&& r.delay_seconds >= AUTH_FAILURE_DELAY_SECONDS
            &&& r.cookies@.len() == 0
            &&& r.head is None
            &&& r.revoke is None
        },
        found matches Some(u) && !u.is_authorized ==> plain(r, UNAUTHORIZED, ACCESS_REVOKED_MESSAGE@),
        found is Some && found->0.is_authorized ==> {
            let u = found->0;
            let t = issued(u.id, session_only, token_family, now);
            &&& r.status == OK
            &&& r.message@.len() == 0
            &&& r.delay_seconds == 0
            &&& r.cookies@.len() == 2
            &&& is_identity_cookie(r.cookies@[0], claims_for(u, now), jwt_secret@)
            &&& is_refresh_cookie(r.cookies@[1], t, refresh_secret@)
            &&& r.head matches Some(h) && h.key@ == uuid_text(token_family) && h.fingerprint@
                == t.payload() && h.ttl_seconds == remaining_seconds(t.exp, now)
            &&& r.revoke is None
        },
{
    match found {
        None => HttpReply {
            status: NOT_FOUND,
            message: BAD_CREDENTIALS_MESSAGE.to_string(),
            delay_seconds: AUTH_FAILURE_DELAY_SECONDS,
            cookies: Vec::new(),
            head: None,
            revoke: None,
        },
        Some(u) => {
            if !u.is_authorized {
                return plain_reply(UNAUTHORIZED, ACCESS_REVOKED_MESSAGE);
            }
            let jwt = Jwt::issued_at(u.id, u.login.clone(), u.name.clone(), u.is_authorized, now);
            let refresh = RefreshToken::issued_at(u.id, session_only, token_family, now);
            let mut cookies: Vec<CookieSpec> = Vec::new();
            cookies.push(jwt.store_in_cookie(jwt_secret));
            cookies.push(refresh.store_in_jar(refresh_secret));
            proof {
                reveal_strlit("");
            }
            HttpReply {
                status: OK,
                message: "".to_string(),
                delay_seconds: 0,
                cookies,
                head: Some(refresh.set_as_head_token(now)),
                revoke: None,
            }
        },
    }
}

/// The answer when the head store or the relational store could not be
/// reached: a failure, never retried here.
pub fn storage_unavailable() -> (r: HttpReply)
    ensures
        plain(r, INTERNAL_SERVER_ERROR, FAILURE_MESSAGE@),
{
    plain_reply(INTERNAL_SERVER_ERROR, FAILURE_MESSAGE)
}

/// The answer to a logout: the identity cookie removed and, when a refresh
/// token came with the request, its family revoked.
pub fn logout(presented: &Option<RefreshToken>) -> (r: HttpReply)
    ensures
        r.status == OK,
        r.message@.len() == 0,
        r.delay_seconds == 0,
        r.cookies@.len() == 1,
        r.cookies@[0].name@ == JWT_PATH@,
        r.cookies@[0].value@.len() == 0,
        r.cookies@[0].path@ == seq!['/'],
        r.cookies@[0].secure,
        !r.cookies@[0].http_only,
        r.cookies@[0].expiry == CookieExpiry::Removal,
        r.head is None,
        match presented {
            Some(t) => r.revoke matches Some(k) && k@ == uuid_text(t.token_family),
            None => r.revoke is None,
        },
{
    let mut cookies: Vec<CookieSpec> = Vec::new();
    cookies.push(removal_cookie());
    let revoke = match presented {
        Some(t) => Some(t.revoke_family()),
        None => None,
    };
    proof {
        reveal_strlit("");
    }
    HttpReply { status: OK, message: "".to_string(), delay_seconds: 0, cookies, head: None, revoke }
}

/// The answer to an authentication check.
pub fn validate(authenticated: bool) -> (r: HttpReply)
    ensures
        authenticated ==> plain(r, OK, Seq::empty()),
        !authenticated ==> plain(r, UNAUTHORIZED, NOT_LOGGED_IN_MESSAGE@),
{
    if authenticated {
        proof {
            reveal_strlit("");
            assert(""@ =~= Seq::<char>::empty());
        }
        plain_reply(OK, "")
    } else {
        plain_reply(UNAUTHORIZED, NOT_LOGGED_IN_MESSAGE)
    }
}

/// The answer to a profile update by `requester` of the account `target`:
/// forbidden for another account; otherwise, once the store returned the
/// updated user, a fresh identity cookie; a failure if it did not.
pub fn update_user(
    requester: i32,
    target: i32,
    updated: &Option<UserRecord>,
    jwt_secret: &str,
    now: i64,
) -> (r: HttpReply)
    ensures
        requester != target ==> plain(r, FORBIDDEN, FOREIGN_UPDATE_MESSAGE@),
        requester == target && updated is None ==> plain(
            r,
            INTERNAL_SERVER_ERROR,
            FAILURE_MESSAGE@,
        ),
        requester == target && updated is Some ==> {
            &&& r.status == CREATED
            &&& r.message@ == USER_UPDATED_MESSAGE@
            &&& r.delay_seconds == 0
            &&& r.cookies@.len() == 1
            &&& is_identity_cookie(r.cookies@[0], claims_for(updated->0, now), jwt_secret@)
            &&& r.head is None
            &&& r.revoke is None
        },
{
    if requester != target {
        return plain_reply(FORBIDDEN, FOREIGN_UPDATE_MESSAGE);
    }
    match updated {
        None => plain_reply(INTERNAL_SERVER_ERROR, FAILURE_MESSAGE),
        Some(u) => {
            let jwt = Jwt::issued_at(u.id, u.login.clone(), u.name.clone(), u.is_authorized, now);
            let mut cookies: Vec<CookieSpec> = Vec::new();
            cookies.push(jwt.store_in_cookie(jwt_secret));
            HttpReply {
                status: CREATED,
                message: USER_UPDATED_MESSAGE.to_string(),
                delay_seconds: 0,
                cookies,
                head: None,
                revoke: None,
            }
        },
    }
}

/// The answer once a rotation has ended. Renewed, for a user still allowed
/// in: both cookies. Otherwise unauthorized, with the same message whether
/// the token was refused or replayed; a replay also revokes the family.
pub fn rotation_reply(
    outcome: &RotationOutcome,
    user: &Option<UserRecord>,
    jwt_secret: &str,
    refresh_secret: &str,
    now: i64,
) -> (r: HttpReply)
    ensures
        outcome is Renewed && user is Some && user->0.is_authorized ==> {
            let t = outcome->Renewed_0;
            &&& r.status == OK
            &&& r.message@.len() == 0
            &&& r.delay_seconds == 0
            &&& r.cookies@.len() == 2
            &&& is_identity_cookie(r.cookies@[0], claims_for(user->0, now), jwt_secret@)
            &&& is_refresh_cookie(r.cookies@[1], t, refresh_secret@)
            &&& r.head is None
            &&& r.revoke is None
        },
        outcome matches RotationOutcome::Renewed(_) && user matches Some(u) && !u.is_authorized
            ==> plain(r, UNAUTHORIZED, ACCESS_REVOKED_MESSAGE@),
        outcome matches RotationOutcome::Renewed(_) && user is None ==> plain(
            r,
            UNAUTHORIZED,
            SESSION_ENDED_MESSAGE@,
        ),
        outcome matches RotationOutcome::Rejected(_) ==> plain(r, UNAUTHORIZED, SESSION_ENDED_MESSAGE@),
        outcome is Revoked ==> {
            &&& r.status == UNAUTHORIZED
            &&& r.message@ == SESSION_ENDED_MESSAGE@
            &&& r.cookies@.len() == 0
            &&& r.head is None
            &&& r.revoke matches Some(k) && k@ == uuid_text(outcome->Revoked_0)
        },
        outcome is StorageUnavailable ==> plain(r, INTERNAL_SERVER_ERROR, FAILURE_MESSAGE@),
{
    match outcome {
        RotationOutcome::Renewed(t) => match user {
            None => plain_reply(UNAUTHORIZED, SESSION_ENDED_MESSAGE),
            Some(u) => {
                if !u.is_authorized {
                    return plain_reply(UNAUTHORIZED, ACCESS_REVOKED_MESSAGE);
                }
                let jwt = Jwt::issued_at(u.id, u.login.clone(), u.name.clone(), u.is_authorized, now);
                let mut cookies: Vec<CookieSpec> = Vec::new();
                cookies.push(jwt.store_in_cookie(jwt_secret));
                cookies.push(t.store_in_jar(refresh_secret));
                proof {
                    reveal_strlit("");
                }
                HttpReply {
                    status: OK,
                    message: "".to_string(),
                    delay_seconds: 0,
                    cookies,
                    head: None,
                    revoke: None,
                }
            },
        },
        RotationOutcome::Rejected(_) => plain_reply(UNAUTHORIZED, SESSION_ENDED_MESSAGE),
        RotationOutcome::StorageUnavailable => storage_unavailable(),
        RotationOutcome::Revoked(f) => {
            let mut reply = plain_reply(UNAUTHORIZED, SESSION_ENDED_MESSAGE);
            let key = family_key(*f);
            reply.revoke = Some(key);
            reply
        },
    }
}

} // verus!
