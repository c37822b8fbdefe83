//! Signed tokens: a payload, a `.`, then the HS256 signature of the payload
//! under a secret.
use vstd::prelude::*;

verus! {

/// Why a presented token was refused.
#[derive(Clone, Copy, Debug, PartialEq, Eq, Structural)]
pub enum TokenError {
    /// The token is not a payload of the expected shape followed by a signature.
    Malformed,
    /// The signature does not match the payload under the secret.
    SignatureInvalid,
    /// The token was genuine, but its expiry has passed.
    Expired,
}

/// The base64url HS256 signature of `message` under `secret`.
pub uninterp spec fn hs256_signature(message: Seq<char>, secret: Seq<char>) -> Seq<char>;

/// Relies on `jsonwebtoken::crypto::sign` with `Algorithm::HS256`: for the HMAC
/// algorithms it always succeeds, and its result depends on the message and
/// the key alone.
#[verifier::external_body]
fn sign(message: &str, secret: &str) -> (r: String)
    ensures
        r@ == hs256_signature(message@, secret@),
{
    let key = jsonwebtoken::EncodingKey::from_secret(secret.as_bytes());
    match jsonwebtoken::crypto::sign(message.as_bytes(), &key, jsonwebtoken::Algorithm::HS256) {
        Ok(signature) => signature,
        Err(_) => String::new(),
    }
}

/// Relies on `str::chars`, collected: the characters of `s` in order.
#[verifier::external_body]
pub(crate) fn chars_of(s: &str) -> (r: Vec<char>)
    ensures
        r@ == s@,
{
    s.chars().collect()
}

/// Relies on `String`'s `FromIterator<&char>`: the characters of `v` in order.
#[verifier::external_body]
pub(crate) fn string_of(v: &Vec<char>) -> (r: String)
    ensures
        r@ == v@,
{
    v.iter().collect()
}

/// Whether two character sequences are equal.
pub fn same_chars(a: &Vec<char>, b: &Vec<char>) -> (r: bool)
    ensures
        r == (a@ == b@),
{
    if a.len() != b.len() {
        return false;
    }
    let mut i: usize = 0;
    while i < a.len()
        invariant
            a@.len() == b@.len(),
            i <= a@.len(),
            forall|j: int| 0 <= j < i ==> a@[j] == b@[j],
        decreases a.len() - i,
    {
        if a[i] != b[i] {
            return false;
        }
        i = i + 1;
    }
    proof {
        assert(a@ =~= b@);
    }
    true
}

/// The token that carries `payload` signed under `secret`.
pub open spec fn sealed(payload: Seq<char>, secret: Seq<char>) -> Seq<char> {
    payload + seq!['.'] + hs256_signature(payload, secret)
}

/// Signs `payload` and appends the signature to it.
pub fn seal(payload: &Vec<char>, secret: &str) -> (r: String)
    ensures
        r@ == sealed(payload@, secret@),
{
    let message = string_of(payload);
    let signature = chars_of(sign(message.as_str(), secret).as_str());
    let mut out: Vec<char> = payload.clone();
    out.push('.');
    let ghost start = out@;
    let mut i: usize = 0;
    while i < signature.len()
        invariant
            i <= signature@.len(),
            out@ == start + signature@.subrange(0, i as int),
        decreases signature.len() - i,
    {
        out.push(signature[i]);
        i = i + 1;
        proof {
            assert(out@ =~= start + signature@.subrange(0, i as int));
        }
    }
    proof {
        assert(signature@.subrange(0, signature@.len() as int) =~= signature@);
        assert(out@ =~= sealed(payload@, secret@));
    }
    string_of(&out)
}

/// Whether the characters after the `.` at `dot` sign those before it.
pub fn signature_matches(token: &Vec<char>, dot: usize, secret: &str) -> (r: bool)
    requires
        dot < token@.len(),
    ensures
        r == (token@.subrange(dot + 1, token@.len() as int) == hs256_signature(
            token@.subrange(0, dot as int),
            secret@,
        )),
{
    let mut payload: Vec<char> = Vec::new();
    let mut i: usize = 0;
    while i < dot
        invariant
            i <= dot < token@.len(),
            payload@ == token@.subrange(0, i as int),
        decreases dot - i,
    {
        payload.push(token[i]);
        i = i + 1;
        proof {
            assert(payload@ =~= token@.subrange(0, i as int));
        }
    }
    let expected = chars_of(sign(string_of(&payload).as_str(), secret).as_str());
    let ghost given = token@.subrange(dot + 1, token@.len() as int);
    if expected.len() != token.len() - dot - 1 {
        return false;
    }
    let tlen: usize = token.len();
    let base: usize = dot + 1;
    let mut k: usize = 0;
    while k < expected.len()
        invariant
            expected@.len() == given.len(),
            base == dot + 1,
            base + expected@.len() == token@.len(),
            tlen == token@.len(),
            expected@ == hs256_signature(token@.subrange(0, dot as int), secret@),
            dot < token@.len(),
            given == token@.subrange(dot + 1, token@.len() as int),
            k <= expected@.len(),
            forall|j: int| 0 <= j < k ==> expected@[j] == given[j],
        decreases expected.len() - k,
    {
        assert(given[k as int] == token@[base + k]);
        if expected[k] != token[base + k] {
            assert(expected@[k as int] != given[k as int]);
            return false;
        }
        k = k + 1;
    }
    proof {
        assert(expected@ =~= given);
    }
    true
}

} // verus!
