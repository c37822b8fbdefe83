use tchatchers_session::validator::{
    AuthenticableUser, InsertableUser, JsonValidatorRejection, ParseRejection, UpdatableUser,
    ValidJson, Validate, ValidationErrorMessage, LOGIN_MESSAGE, NAME_MESSAGE, PASSWORD_MESSAGE,
};

fn user(login: &str, name: &str, password: &str) -> InsertableUser {
    InsertableUser { login: login.to_string(), name: name.to_string(), password: password.to_string() }
}

#[test]
fn valid_payload_passes() {
    assert!(user("alice", "Alice", "password1").validate().is_ok());
    assert!(user("abc", "abc", "12345678").validate().is_ok());
    assert!(user(&"a".repeat(32), &"n".repeat(16), &"p".repeat(128)).validate().is_ok());
}

#[test]
fn two_violations_are_both_reported() {
    let errors = user("al", "Alice", "short").validate().unwrap_err();
    assert_eq!(errors.field_count(), 2);
    assert_eq!(errors.messages("login"), vec![LOGIN_MESSAGE.to_string()]);
    assert_eq!(errors.messages("password"), vec![PASSWORD_MESSAGE.to_string()]);
    assert!(errors.messages("name").is_empty());
}

#[test]
fn every_rule_is_checked() {
    let errors = user("", &"n".repeat(17), &"p".repeat(129)).validate().unwrap_err();
    assert_eq!(errors.field_count(), 3);
    assert_eq!(
        errors.to_text(),
        format!("login: {LOGIN_MESSAGE}\nname: {NAME_MESSAGE}\npassword: {PASSWORD_MESSAGE}\n")
    );
}

#[test]
fn lengths_count_characters() {
    assert!(user("ééé", "ééé", "éééééééé").validate().is_ok());
}

#[test]
fn messages_for_one_field_accumulate_in_order() {
    let mut m = ValidationErrorMessage::new();
    assert!(m.is_empty());
    m.add("login", "first");
    m.add("name", "other");
    m.add("login", "second");
    assert_eq!(m.field_count(), 2);
    assert_eq!(m.messages("login"), vec!["first".to_string(), "second".to_string()]);
    assert_eq!(m.to_text(), "login: first\nlogin: second\nname: other\n");
}

#[test]
fn other_payloads_have_their_rules() {
    let creds = AuthenticableUser { login: "x".to_string(), password: "y".to_string() };
    assert_eq!(creds.validate().unwrap_err().field_count(), 2);
    let update = UpdatableUser { id: 3, name: "Al".to_string(), pfp: None };
    let e = update.validate().unwrap_err();
    assert_eq!(e.messages("name"), vec![NAME_MESSAGE.to_string()]);
    let ok = UpdatableUser { id: 3, name: "Alice".to_string(), pfp: Some("/p.png".to_string()) };
    assert!(ok.validate().is_ok());
}

#[test]
fn extractor_hands_on_a_valid_body() {
    let parsed: Result<InsertableUser, ParseRejection> = Ok(user("alice", "Alice", "password1"));
    let ValidJson(v) = ValidJson::from_parsed(parsed).ok().unwrap();
    assert_eq!(v.login, "alice");
}

#[test]
fn extractor_reports_all_violations_as_bad_request() {
    let parsed: Result<InsertableUser, ParseRejection> = Ok(user("al", "Al", "short"));
    let rejection = match ValidJson::from_parsed(parsed) {
        Err(r) => r,
        Ok(_) => panic!("expected a rejection"),
    };
    let (status, body) = rejection.into_response();
    assert_eq!(status, 400);
    assert_eq!(
        body,
        format!("login: {LOGIN_MESSAGE}\nname: {NAME_MESSAGE}\npassword: {PASSWORD_MESSAGE}\n")
    );
}

#[test]
fn extractor_passes_parse_failures_through() {
    let parsed: Result<InsertableUser, ParseRejection> =
        Err(ParseRejection { status: 422, body: "missing field `login`".to_string() });
    match ValidJson::from_parsed(parsed) {
        Err(JsonValidatorRejection::JsonAxumRejection(p)) => {
            assert_eq!(p.status, 422);
            assert_eq!(p.body, "missing field `login`");
        }
        _ => panic!("expected the parse failure"),
    }
}
