use tchatchers_session::requester::{Method, Requester, REAUTH_ENDPOINT};

#[test]
fn builders_set_method_and_endpoint() {
    for (r, m) in [
        (Requester::get("/api/a"), Method::Get),
        (Requester::post("/api/a"), Method::Post),
        (Requester::put("/api/a"), Method::Put),
        (Requester::delete("/api/a"), Method::Delete),
        (Requester::patch("/api/a"), Method::Patch),
    ] {
        assert_eq!(r.method, Some(m));
        assert_eq!(r.endpoint.as_deref(), Some("/api/a"));
        assert!(r.payload.is_none());
        assert!(!r.is_json);
    }
}

#[test]
fn request_parts_carry_body_and_headers() {
    let mut r = Requester::put("/api/user");
    r.is_json(true);
    r.body(Some("{\"id\":1}".to_string()));
    r.body(None);
    r.bearer_value("tok".to_string());
    let p = r.request_parts().unwrap();
    assert_eq!(p.method, Method::Put);
    assert_eq!(p.endpoint, "/api/user");
    assert_eq!(p.body.as_deref(), Some("{\"id\":1}"));
    assert_eq!(
        p.headers,
        vec![
            ("Authorization".to_string(), "Bearer tok".to_string()),
            ("Content-Type".to_string(), "application/json".to_string()),
        ]
    );
}

#[test]
fn incomplete_request_has_no_parts() {
    let mut r = Requester::get("/x");
    r.method = None;
    assert!(r.request_parts().is_none());
}

#[test]
fn only_unauthorized_answers_elsewhere_trigger_renewal() {
    let r = Requester::get("/api/user");
    assert!(r.needs_reauthentication(401));
    assert!(!r.needs_reauthentication(200));
    assert!(!r.needs_reauthentication(403));
    let renewal = Requester::reauthentication();
    assert_eq!(renewal.method, Some(Method::Patch));
    assert_eq!(renewal.endpoint.as_deref(), Some(REAUTH_ENDPOINT));
    assert!(!renewal.needs_reauthentication(401));
}
