//! The client's request builder, and what it does when the server answers
//! that the identity token is no longer accepted: renew the session once,
//! then send the request again with the new token.
use vstd::prelude::*;
use crate::codec::{chars_of, same_chars, string_of};

verus! {

/// The status that asks the client to authenticate again.
pub const UNAUTHORIZED: u16 = 401;

/// The endpoint that renews a session from its refresh token.
pub const REAUTH_ENDPOINT: &'static str = "/api/authenticate";

/// An HTTP method.
#[derive(Clone, Copy, Debug, PartialEq, Eq, Structural)]
pub enum Method {
    Get,
    Post,
    Put,
    Delete,
    Patch,
}

/// A request under construction.
#[derive(Clone, Debug)]
pub struct Requester {
    pub endpoint: Option<String>,
    pub method: Option<Method>,
    pub payload: Option<String>,
    pub is_json: bool,
    pub bearer_value: Option<String>,
}

/// A request ready to be sent: method, endpoint, body and headers.
#[derive(Clone, Debug)]
pub struct RequestParts {
    pub method: Method,
    pub endpoint: String,
    pub body: Option<String>,
    pub headers: Vec<(String, String)>,
}

/// The headers of a request with the given bearer token and JSON flag.
pub open spec fn headers_for(bearer: Option<Seq<char>>, is_json: bool) -> Seq<(Seq<char>, Seq<char>)> {
    let auth: Seq<(Seq<char>, Seq<char>)> = match bearer {
        Some(b) => seq![("Authorization"@, "Bearer "@ + b)],
        None => Seq::empty(),
    };
    if is_json {
        auth.push(("Content-Type"@, "application/json"@))
    } else {
        auth
    }
}

impl Requester {
    /// The bearer token, as a value.
    pub open spec fn bearer_view(&self) -> Option<Seq<char>> {
        match self.bearer_value {
            Some(b) => Some(b@),
            None => None,
        }
    }

    fn with_method(method: Method, endpoint: &str) -> (r: Self)
        ensures
            r.method == Some(method),
            r.endpoint matches Some(e) && e@ == endpoint@,
            r.payload is None,
            !r.is_json,
            r.bearer_value is None,
    {
        Requester {
            endpoint: Some(endpoint.to_string()),
            method: Some(method),
            payload: None,
            is_json: false,
            bearer_value: None,
        }
    }

    /// A GET request to `endpoint`.
    pub fn get(endpoint: &str) -> (r: Self)
        ensures
            r.method == Some(Method::Get),
            r.endpoint matches Some(e) && e@ == endpoint@,
            r.payload is None && !r.is_json && r.bearer_value is None,
    {
        Self::with_method(Method::Get, endpoint)
    }

    /// A POST request to `endpoint`.
    pub fn post(endpoint: &str) -> (r: Self)
        ensures
            r.method == Some(Method::Post),
            r.endpoint matches Some(e) && e@ == endpoint@,
            r.payload is None && !r.is_json && r.bearer_value is None,
    {
        Self::with_method(Method::Post, endpoint)
    }

    /// A PUT request to `endpoint`.
    pub fn put(endpoint: &str) -> (r: Self)
        ensures
            r.method == Some(Method::Put),
            r.endpoint matches Some(e) && e@ == endpoint@,
            r.payload is None && !r.is_json && r.bearer_value is None,
    {
        Self::with_method(Method::Put, endpoint)
    }

    /// A DELETE request to `endpoint`.
    pub fn delete(endpoint: &str) -> (r: Self)
        ensures
            r.method == Some(Method::Delete),
            r.endpoint matches Some(e) && e@ == endpoint@,
            r.payload is None && !r.is_json && r.bearer_value is None,
    {
        Self::with_method(Method::Delete, endpoint)
    }

    /// A PATCH request to `endpoint`.
    pub fn patch(endpoint: &str) -> (r: Self)
        ensures
            r.method == Some(Method::Patch),
            r.endpoint matches Some(e) && e@ == endpoint@,
            r.payload is None && !r.is_json && r.bearer_value is None,
    {
        Self::with_method(Method::Patch, endpoint)
    }

    /// Sets the body, if one is given; keeps the current one otherwise.
    pub fn body(&mut self, body: Option<String>)
        ensures
            final(self).payload == match body {
                Some(b) => Some(b),
                None => old(self).payload,
            },
            final(self).endpoint == old(self).endpoint,
            final(self).method == old(self).method,
            final(self).is_json == old(self).is_json,
            final(self).bearer_value == old(self).bearer_value,
    {
        if let Some(b) = body {
            self.payload = Some(b);
        }
    }

    /// Marks the body as JSON, or not.
    pub fn is_json(&mut self, is_json: bool)
        ensures
            final(self).is_json == is_json,
            final(self).endpoint == old(self).endpoint,
            final(self).method == old(self).method,
            final(self).payload == old(self).payload,
            final(self).bearer_value == old(self).bearer_value,
    {
        self.is_json = is_json;
    }

    /// Sets the bearer token.
    pub fn bearer_value(&mut self, bearer: String)
        ensures
            final(self).bearer_value == Some(bearer),
            final(self).endpoint == old(self).endpoint,
            final(self).method == old(self).method,
            final(self).payload == old(self).payload,
            final(self).is_json == old(self).is_json,
    {
        self.bearer_value = Some(bearer);
    }

    /// The request to send, once both a method and an endpoint are set.
    pub fn request_parts(&self) -> (r: Option<RequestParts>)
        ensures
            (self.method is None || self.endpoint is None) ==> r is None,
            (self.method is Some && self.endpoint is Some) ==> (r matches Some(p) && p.method
                == self.method->0 && p.endpoint@ == self.endpoint->0@ && p.body == self.payload
                && p.headers@.map_values(|h: (String, String)| (h.0@, h.1@)) == headers_for(
                self.bearer_view(),
                self.is_json,
            )),
    {
        let method = match self.method {
            Some(m) => m,
            None => return None,
        };
        let endpoint = match &self.endpoint {
            Some(e) => e.clone(),
            None => return None,
        };
        let mut headers: Vec<(String, String)> = Vec::new();
        if let Some(b) = &self.bearer_value {
            let mut value = chars_of("Bearer ");
            let bc = chars_of(b.as_str());
            let mut i: usize = 0;
            let ghost start = value@;
            while i < bc.len()
                invariant
                    i <= bc@.len(),
                    value@ == start + bc@.subrange(0, i as int),
                decreases bc.len() - i,
            {
                value.push(bc[i]);
                i = i + 1;
                proof {
                    assert(value@ =~= start + bc@.subrange(0, i as int));
                }
            }
            proof {
                assert(bc@.subrange(0, bc@.len() as int) =~= bc@);
            }
            headers.push(("Authorization".to_string(), string_of(&value)));
        }
        if self.is_json {
            headers.push(("Content-Type".to_string(), "application/json".to_string()));
        }
        let parts = RequestParts { method, endpoint, body: self.payload.clone(), headers };
        proof {
            assert(parts.headers@.map_values(|h: (String, String)| (h.0@, h.1@)) =~= headers_for(
                self.bearer_view(),
                self.is_json,
            ));
        }
        Some(parts)
    }

    /// Whether an answer with `status` calls for renewing the session and
    /// sending again: only an unauthorized answer to another endpoint than
    /// the renewal itself.
    pub fn needs_reauthentication(&self, status: u16) -> (r: bool)
        ensures
            r == (status == UNAUTHORIZED && !(self.endpoint matches Some(e) && e@
                == REAUTH_ENDPOINT@)),
    {
        if status != UNAUTHORIZED {
            return false;
        }
        match &self.endpoint {
            None => true,
            Some(e) => {
                let a = chars_of(e.as_str());
                let b = chars_of(REAUTH_ENDPOINT);
                !same_chars(&a, &b)
            },
        }
    }

    /// The request that renews the session.
    pub fn reauthentication() -> (r: Self)
        ensures
            r.method == Some(Method::Patch),
            r.endpoint matches Some(e) && e@ == REAUTH_ENDPOINT@,
            r.payload is None && !r.is_json && r.bearer_value is None,
    {
        Self::patch(REAUTH_ENDPOINT)
    }
}

} // verus!
