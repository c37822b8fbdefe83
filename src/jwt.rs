//! Identity tokens: short-lived signed claims about an authenticated user,
//! valid by their signature and expiry alone.
use vstd::prelude::*;
use crate::codec::{chars_of, hs256_signature, seal, sealed, signature_matches, string_of, TokenError};
use crate::fields::{
    bool_field, field_at, int_field, lemma_field_at_char, lemma_field_at_split,
    lemma_field_at_whole, lemma_int_field_unique, lemma_text_field_unique, push_bool, push_int,
    push_text, read_bool, read_int, read_text, text_field,
};
use crate::refresh_token::{now_timestamp, CookieExpiry, CookieSpec};

verus! {

/// How long an identity token stays valid after it is issued, in seconds.
pub const JWT_LIFETIME: i64 = 900;

/// The name of the cookie that carries the identity token.
pub const JWT_PATH: &'static str = "jwt";

/// The claims of an identity token.
#[derive(Clone, Debug)]
pub struct Jwt {
    pub user_id: i32,
    /// The user's login.
    pub login: String,
    /// The user's display name.
    pub name: String,
    /// Whether the user was allowed in when the token was issued.
    pub is_authorized: bool,
    /// When the token was issued, in seconds since the Unix epoch.
    pub iat: i64,
    /// When the token expires, in seconds since the Unix epoch.
    pub exp: i64,
}

/// The claims of an identity token, as values.
pub struct Claims {
    pub user_id: i32,
    pub login: Seq<char>,
    pub name: Seq<char>,
    pub is_authorized: bool,
    pub iat: i64,
    pub exp: i64,
}

impl Claims {
    /// The canonical text of the claims.
    pub open spec fn payload(self) -> Seq<char> {
        seq!['I'] + int_field(self.user_id as int) + text_field(self.login) + text_field(self.name)
            + bool_field(self.is_authorized) + int_field(self.iat as int) + int_field(
            self.exp as int,
        )
    }

    /// The texts are short enough to be held in memory.
    pub open spec fn wf(self) -> bool {
        &&& self.login.len() <= usize::MAX
        &&& self.name.len() <= usize::MAX
    }
}

impl View for Jwt {
    type V = Claims;

    open spec fn view(&self) -> Claims {
        Claims {
            user_id: self.user_id,
            login: self.login@,
            name: self.name@,
            is_authorized: self.is_authorized,
            iat: self.iat,
            exp: self.exp,
        }
    }
}

/// `token` starts with the payload of `c`, then a `.`.
pub open spec fn claims_lead(token: Seq<char>, c: Claims) -> bool {
    &&& c.wf()
    &&& c.payload().len() < token.len()
    &&& token.subrange(0, c.payload().len() as int) == c.payload()
    &&& token[c.payload().len() as int] == '.'
}

/// The claims that a token presented as `token` under `secret` at time `now`
/// carries, or why it is refused.
pub open spec fn identity_opened(token: Seq<char>, secret: Seq<char>, now: i64) -> Result<
    Claims,
    TokenError,
> {
    if exists|c: Claims| claims_lead(token, c) {
        let c = choose|c: Claims| claims_lead(token, c);
        let sig = token.subrange(c.payload().len() + 1int, token.len() as int);
        if sig != hs256_signature(c.payload(), secret) {
            Err(TokenError::SignatureInvalid)
        } else if c.exp < now {
            Err(TokenError::Expired)
        } else {
            Ok(c)
        }
    } else {
        Err(TokenError::Malformed)
    }
}

/// The expiry of an identity token issued at `now`.
pub open spec fn jwt_expiry_from(now: i64) -> i64 {
    if now <= i64::MAX - JWT_LIFETIME {
        (now + JWT_LIFETIME) as i64
    } else {
        i64::MAX
    }
}

/// The tag, the user and the two texts of an identity payload.
pub open spec fn head_text(user_id: i32, login: Seq<char>, name: Seq<char>) -> Seq<char> {
    seq!['I'] + int_field(user_id as int) + text_field(login) + text_field(name)
}

/// The flag and the two times of an identity payload.
pub open spec fn tail_text(is_authorized: bool, iat: i64, exp: i64) -> Seq<char> {
    bool_field(is_authorized) + int_field(iat as int) + int_field(exp as int)
}

proof fn lemma_payload_parts(c: Claims)
    ensures
        c.payload() == head_text(c.user_id, c.login, c.name) + tail_text(c.is_authorized, c.iat, c.exp),
{
    assert(c.payload() =~= head_text(c.user_id, c.login, c.name) + tail_text(
        c.is_authorized,
        c.iat,
        c.exp,
    ));
}

/// The positions of the claims' fields within their payload.
pub open spec fn claims_fields_at(s: Seq<char>, c: Claims) -> bool {
    let u = int_field(c.user_id as int);
    let l = text_field(c.login);
    let n = text_field(c.name);
    let b = bool_field(c.is_authorized);
    let i = int_field(c.iat as int);
    &&& field_at(s, 1, int_field((c.user_id as i64) as int))
    &&& field_at(s, (1 + u.len()) as int, text_field(c.login))
    &&& field_at(s, (1 + u.len() + l.len()) as int, text_field(c.name))
    &&& field_at(s, (1 + u.len() + l.len() + n.len()) as int, bool_field(c.is_authorized))
    &&& field_at(s, (1 + u.len() + l.len() + n.len() + b.len()) as int, int_field(c.iat as int))
    &&& field_at(
        s,
        (1 + u.len() + l.len() + n.len() + b.len() + i.len()) as int,
        int_field(c.exp as int),
    )
}

proof fn lemma_claims_fields(s: Seq<char>, c: Claims)
    requires
        field_at(s, 0, c.payload()),
    ensures
        claims_fields_at(s, c),
{
    let a = seq!['I'];
    let u = int_field(c.user_id as int);
    let l = text_field(c.login);
    let n = text_field(c.name);
    let b = bool_field(c.is_authorized);
    let i = int_field(c.iat as int);
    let x = int_field(c.exp as int);
    assert(c.payload() =~= a + (u + (l + (n + (b + (i + x))))));
    lemma_field_at_split(s, 0, a, u + (l + (n + (b + (i + x)))));
    lemma_field_at_split(s, 1, u, l + (n + (b + (i + x))));
    lemma_field_at_split(s, (1 + u.len()) as int, l, n + (b + (i + x)));
    lemma_field_at_split(s, (1 + u.len() + l.len()) as int, n, b + (i + x));
    lemma_field_at_split(s, (1 + u.len() + l.len() + n.len()) as int, b, i + x);
    lemma_field_at_split(s, (1 + u.len() + l.len() + n.len() + b.len()) as int, i, x);
}

/// A text holds the payload of at most one set of claims.
pub proof fn lemma_claims_unique(s: Seq<char>, c1: Claims, c2: Claims)
    requires
        c1.wf(),
        c2.wf(),
        field_at(s, 0, c1.payload()),
        field_at(s, 0, c2.payload()),
    ensures
        c1 == c2,
{
    lemma_claims_fields(s, c1);
    lemma_claims_fields(s, c2);
    lemma_int_field_unique(s, 1, c1.user_id as int, c2.user_id as int);
    let at1 = (1 + int_field(c1.user_id as int).len()) as int;
    lemma_text_field_unique(s, at1, c1.login, c2.login);
    let at2 = at1 + text_field(c1.login).len();
    lemma_text_field_unique(s, at2, c1.name, c2.name);
    let at3 = at2 + text_field(c1.name).len();
    lemma_int_field_unique(
        s,
        at3,
        if c1.is_authorized { 1 } else { 0 },
        if c2.is_authorized { 1 } else { 0 },
    );
    let at4 = at3 + bool_field(c1.is_authorized).len();
    lemma_int_field_unique(s, at4, c1.iat as int, c2.iat as int);
    let at5 = at4 + int_field(c1.iat as int).len();
    lemma_int_field_unique(s, at5, c1.exp as int, c2.exp as int);
}

/// Identity claims read back from their own token under the same secret,
/// and are refused as expired once the clock has passed their expiry.
pub proof fn lemma_identity_round_trip(c: Claims, secret: Seq<char>, now: i64)
    requires
        c.wf(),
    ensures
        identity_opened(sealed(c.payload(), secret), secret, now) == if c.exp < now {
            Err(TokenError::Expired)
        } else {
            Ok(c)
        },
{
    let s = sealed(c.payload(), secret);
    let sig = hs256_signature(c.payload(), secret);
    assert(s =~= c.payload() + (seq!['.'] + sig));
    lemma_field_at_whole(s, c.payload(), seq!['.'] + sig);
    lemma_field_at_split(s, c.payload().len() as int, seq!['.'], sig);
    lemma_field_at_char(s, c.payload().len() as int, '.');
    assert(claims_lead(s, c));
    let c1 = choose|c1: Claims| claims_lead(s, c1);
    assert(field_at(s, 0, c1.payload()));
    lemma_claims_unique(s, c, c1);
    assert(s.subrange(c.payload().len() + 1int, s.len() as int) =~= sig);
}

proof fn lemma_identity_opened(s: Seq<char>, secret: Seq<char>, now: i64, read: Option<(Jwt, usize)>)
    requires
        read matches Some((j, e)) ==> e == j@.payload().len() && j@.wf() && field_at(
            s,
            0,
            j@.payload(),
        ),
        forall|c: Claims|
            c.wf() && field_at(s, 0, #[trigger] c.payload()) ==> (read matches Some((j, e)) && j@
                == c && e == c.payload().len()),
    ensures
        identity_opened(s, secret, now) == match read {
            None => Err(TokenError::Malformed),
            Some((j, e)) => if e < s.len() && s[e as int] == '.' {
                if s.subrange(e + 1, s.len() as int) != hs256_signature(
                    s.subrange(0, e as int),
                    secret,
                ) {
                    Err(TokenError::SignatureInvalid)
                } else if j.exp < now {
                    Err(TokenError::Expired)
                } else {
                    Ok(j@)
                }
            } else {
                Err(TokenError::Malformed)
            },
        },
{
    if exists|c: Claims| claims_lead(s, c) {
        let c1 = choose|c: Claims| claims_lead(s, c);
        assert(field_at(s, 0, c1.payload()));
    } else {
        if read is Some {
            let (j, e) = read->0;
            if e < s.len() && s[e as int] == '.' {
                assert(claims_lead(s, j@));
            }
        }
    }
}

impl Jwt {
    /// The claims for a user, issued at `now`.
    pub fn issued_at(user_id: i32, login: String, name: String, is_authorized: bool, now: i64) -> (r:
        Self)
        ensures
            r@ == (Claims {
                user_id,
                login: login@,
                name: name@,
                is_authorized,
                iat: now,
                exp: jwt_expiry_from(now),
            }),
    {
        let exp = if now <= i64::MAX - JWT_LIFETIME {
            now + JWT_LIFETIME
        } else {
            i64::MAX
        };
        Jwt { user_id, login, name, is_authorized, iat: now, exp }
    }

    /// The claims for a user, issued now.
    pub fn for_user(user_id: i32, login: String, name: String, is_authorized: bool) -> (r: Self)
        ensures
            r.user_id == user_id,
            r.login@ == login@,
            r.name@ == name@,
            r.is_authorized == is_authorized,
            r.exp == jwt_expiry_from(r.iat),
    {
        Self::issued_at(user_id, login, name, is_authorized, now_timestamp())
    }

    fn payload_chars(&self) -> (r: Vec<char>)
        ensures
            r@ == self@.payload(),
    {
        let mut out: Vec<char> = Vec::new();
        out.push('I');
        push_int(&mut out, self.user_id as i128);
        push_text(&mut out, &chars_of(self.login.as_str()));
        push_text(&mut out, &chars_of(self.name.as_str()));
        push_bool(&mut out, self.is_authorized);
        push_int(&mut out, self.iat as i128);
        push_int(&mut out, self.exp as i128);
        proof {
            assert(out@ =~= self@.payload());
        }
        out
    }

    /// The claims signed under `secret`.
    pub fn serialize(&self, secret: &str) -> (r: String)
        ensures
            r@ == sealed(self@.payload(), secret@),
    {
        seal(&self.payload_chars(), secret)
    }

    /// Reads the tag, the user and the two texts from the start of `s`.
    #[verifier::rlimit(40)]
    fn read_head(s: &Vec<char>) -> (r: Option<(i32, Vec<char>, Vec<char>, usize)>)
        ensures
            r matches Some((u, l, n, e)) ==> e == head_text(u, l@, n@).len() && field_at(
                s@,
                0,
                head_text(u, l@, n@),
            ),
            forall|u: i32, l: Seq<char>, n: Seq<char>|
                field_at(s@, 0, #[trigger] head_text(u, l, n)) ==> (r matches Some((u2, l2, n2, e))
                    && u2 == u && l2@ == l && n2@ == n && e == head_text(u, l, n).len()),
    {
        if s.len() == 0 || s[0] != 'I' {
            proof {
                assert forall|u: i32, l: Seq<char>, n: Seq<char>| !field_at(
                    s@,
                    0,
                    #[trigger] head_text(u, l, n),
                ) by {
                    if field_at(s@, 0, head_text(u, l, n)) {
                        assert(s@[0] == head_text(u, l, n)[0]);
                    }
                }
            }
            return None;
        }
        proof {
            assert forall|u: i32, l: Seq<char>, n: Seq<char>| field_at(
                s@,
                0,
                #[trigger] head_text(u, l, n),
            ) implies {
                &&& field_at(s@, 1, int_field((u as i64) as int))
                &&& field_at(s@, (1 + int_field(u as int).len()) as int, text_field(l))
                &&& field_at(
                    s@,
                    (1 + int_field(u as int).len() + text_field(l).len()) as int,
                    text_field(n),
                )
            } by {
                let a = seq!['I'];
                let x = int_field(u as int);
                let y = text_field(l);
                let z = text_field(n);
                assert(head_text(u, l, n) =~= a + (x + (y + z)));
                lemma_field_at_split(s@, 0, a, x + (y + z));
                lemma_field_at_split(s@, 1, x, y + z);
                lemma_field_at_split(s@, (1 + x.len()) as int, y, z);
            }
        }
        let (user_id, at1) = match read_int(s, 1) {
            Some(v) => v,
            None => return None,
        };
        if user_id < i32::MIN as i64 || user_id > i32::MAX as i64 {
            return None;
        }
        let (login, at2) = match read_text(s, at1) {
            Some(v) => v,
            None => return None,
        };
        let (name, at3) = match read_text(s, at2) {
            Some(v) => v,
            None => return None,
        };
        let u = user_id as i32;
        proof {
            assert(s@.subrange(0, at3 as int) =~= seq!['I'] + s@.subrange(1, at1 as int)
                + s@.subrange(at1 as int, at2 as int) + s@.subrange(at2 as int, at3 as int));
            assert(head_text(u, login@, name@) =~= s@.subrange(0, at3 as int));
        }
        Some((u, login, name, at3))
    }

    /// Reads the flag and the two times from position `pos` of `s`.
    #[verifier::rlimit(40)]
    fn read_tail(s: &Vec<char>, pos: usize) -> (r: Option<(bool, i64, i64, usize)>)
        ensures
            r matches Some((b, i, x, e)) ==> e == pos + tail_text(b, i, x).len() && field_at(
                s@,
                pos as int,
                tail_text(b, i, x),
            ),
            forall|b: bool, i: i64, x: i64|
                field_at(s@, pos as int, #[trigger] tail_text(b, i, x)) ==> r == Some(
                    (b, i, x, (pos + tail_text(b, i, x).len()) as usize),
                ),
    {
        proof {
            assert forall|b: bool, i: i64, x: i64| field_at(
                s@,
                pos as int,
                #[trigger] tail_text(b, i, x),
            ) implies {
                &&& field_at(s@, pos as int, bool_field(b))
                &&& field_at(s@, pos + bool_field(b).len(), int_field(i as int))
                &&& field_at(s@, pos + bool_field(b).len() + int_field(i as int).len(), int_field(x as int))
            } by {
                let f = bool_field(b);
                let g = int_field(i as int);
                let h = int_field(x as int);
                assert(tail_text(b, i, x) =~= f + (g + h));
                lemma_field_at_split(s@, pos as int, f, g + h);
                lemma_field_at_split(s@, pos + f.len(), g, h);
            }
        }
        let (is_authorized, at1) = match read_bool(s, pos) {
            Some(v) => v,
            None => return None,
        };
        let (iat, at2) = match read_int(s, at1) {
            Some(v) => v,
            None => return None,
        };
        let (exp, at3) = match read_int(s, at2) {
            Some(v) => v,
            None => return None,
        };
        proof {
            assert(s@.subrange(pos as int, at3 as int) =~= s@.subrange(pos as int, at1 as int)
                + s@.subrange(at1 as int, at2 as int) + s@.subrange(at2 as int, at3 as int));
        }
        Some((is_authorized, iat, exp, at3))
    }

    fn read_payload(s: &Vec<char>) -> (r: Option<(Jwt, usize)>)
        ensures
            r matches Some((j, e)) ==> e == j@.payload().len() && j@.wf() && field_at(
                s@,
                0,
                j@.payload(),
            ),
            forall|c: Claims|
                c.wf() && field_at(s@, 0, #[trigger] c.payload()) ==> (r matches Some((j, e)) && j@
                    == c && e == c.payload().len()),
    {
        proof {
            assert forall|c: Claims| field_at(s@, 0, #[trigger] c.payload()) implies field_at(
                s@,
                0,
                head_text(c.user_id, c.login, c.name),
            ) && field_at(
                s@,
                head_text(c.user_id, c.login, c.name).len() as int,
                tail_text(c.is_authorized, c.iat, c.exp),
            ) by {
                lemma_payload_parts(c);
                lemma_field_at_split(
                    s@,
                    0,
                    head_text(c.user_id, c.login, c.name),
                    tail_text(c.is_authorized, c.iat, c.exp),
                );
            }
        }
        let (user_id, login, name, p) = match Self::read_head(s) {
            Some(v) => v,
            None => return None,
        };
        let (is_authorized, iat, exp, e) = match Self::read_tail(s, p) {
            Some(v) => v,
            None => return None,
        };
        let j = Jwt { user_id, login: string_of(&login), name: string_of(&name), is_authorized, iat, exp };
        proof {
            lemma_payload_parts(j@);
            assert(s@.subrange(0, e as int) =~= s@.subrange(0, p as int) + s@.subrange(
                p as int,
                e as int,
            ));
        }
        Some((j, e))
    }

    /// Reads an identity token presented as `token`: its claims, its
    /// signature under `secret`, then its expiry against `now`.
    pub fn decode(token: &str, secret: &str, now: i64) -> (r: Result<Jwt, TokenError>)
        ensures
            match r {
                Ok(j) => identity_opened(token@, secret@, now) == Ok::<Claims, TokenError>(j@),
                Err(e) => identity_opened(token@, secret@, now) == Err::<Claims, TokenError>(e),
            },
    {
        let s = chars_of(token);
        let read = Self::read_payload(&s);
        proof {
            lemma_identity_opened(s@, secret@, now, read);
        }
        match read {
            None => Err(TokenError::Malformed),
            Some((j, end)) => {
                if end >= s.len() || s[end] != '.' {
                    return Err(TokenError::Malformed);
                }
                if !signature_matches(&s, end, secret) {
                    return Err(TokenError::SignatureInvalid);
                }
                if j.exp < now {
                    return Err(TokenError::Expired);
                }
                Ok(j)
            },
        }
    }

    /// The cookie that carries these claims signed under `secret`: at the
    /// root path, secure, readable by scripts, and permanent.
    pub fn store_in_cookie(&self, secret: &str) -> (r: CookieSpec)
        ensures
            r.name@ == JWT_PATH@,
            r.value@ == sealed(self@.payload(), secret@),
            r.path@ == seq!['/'],
            r.secure,
            !r.http_only,
            r.expiry == CookieExpiry::Permanent,
    {
        proof {
            reveal_strlit("/");
        }
        CookieSpec {
            name: JWT_PATH.to_string(),
            value: self.serialize(secret),
            path: "/".to_string(),
            secure: true,
            http_only: false,
            expiry: CookieExpiry::Permanent,
        }
    }
}

/// The cookie that removes the identity token from the client.
pub fn removal_cookie() -> (r: CookieSpec)
    ensures
        r.name@ == JWT_PATH@,
        r.value@.len() == 0,
        r.path@ == seq!['/'],
        r.secure,
        !r.http_only,
        r.expiry == CookieExpiry::Removal,
{
    proof {
        reveal_strlit("/");
        reveal_strlit("");
    }
    CookieSpec {
        name: JWT_PATH.to_string(),
        value: "".to_string(),
        path: "/".to_string(),
        secure: true,
        http_only: false,
        expiry: CookieExpiry::Removal,
    }
}

} // verus!
