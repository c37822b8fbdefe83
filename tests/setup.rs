use tchatchers_session::env::{EnvAction, EnvironmentCheckErrorTypes, SetupVerdict};
use tchatchers_session::not_found::NotFound;
use tchatchers_session::settings::{self, SettingsStep};
use tchatchers_session::signup::{self, SignUpStep};
use tchatchers_session::validator::{InsertableUser, UpdatableUser};

use EnvironmentCheckErrorTypes::{Error, Warning};

#[test]
fn complete_setup_is_ready() {
    assert_eq!(EnvAction::verdict(&vec![]), SetupVerdict::Ready);
}

#[test]
fn warnings_alone_degrade() {
    assert_eq!(EnvAction::verdict(&vec![Warning, Warning]), SetupVerdict::Degraded { warnings: 2 });
}

#[test]
fn any_error_breaks() {
    assert_eq!(
        EnvAction::verdict(&vec![Warning, Error, Error]),
        SetupVerdict::Broken { fatal: 2, warnings: 1 }
    );
}

#[test]
fn missing_variables_raise_their_severity() {
    let vars = EnvAction::env_vars_to_check();
    assert_eq!(vars.len(), 13);
    let severity: Vec<_> = vars.iter().map(|v| v.1).collect();
    let mut present = vec![true; 13];
    present[0] = false;
    present[1] = false;
    assert_eq!(EnvAction::missing_items(&present, &severity), vec![Warning, Error]);
    assert_eq!(EnvAction::missing_items(&vec![true; 13], &severity), vec![]);
}

#[test]
fn programs_checked() {
    assert_eq!(EnvAction::programs_to_check(), vec!["docker", "cargo", "docker-compose", "npx", "trunk", "rustup"]);
}

#[test]
fn target_listing() {
    let target = EnvAction::target_to_check();
    assert!(EnvAction::lists_target("x86_64-unknown-linux-gnu\nwasm32-unknown-unknown\n", target));
    assert!(!EnvAction::lists_target("x86_64-unknown-linux-gnu\n", target));
    assert!(!EnvAction::lists_target("", target));
}

#[test]
fn signup_form_decisions() {
    let bad = InsertableUser { login: "al".to_string(), name: "Alice".to_string(), password: "password1".to_string() };
    assert!(matches!(signup::submit_form(bad, "password1"), SignUpStep::ShowError(_)));
    let good = InsertableUser { login: "alice".to_string(), name: "Alice".to_string(), password: "password1".to_string() };
    assert!(matches!(signup::submit_form(good.clone(), "password2"), SignUpStep::PasswordMismatch));
    match signup::submit_form(good, "password1") {
        SignUpStep::Send(p) => assert_eq!(p.login, "alice"),
        _ => panic!("expected the request"),
    }
    let _ = signup::Props;
}

#[test]
fn settings_form_decisions() {
    let bad = UpdatableUser { id: 1, name: "A".to_string(), pfp: None };
    assert!(matches!(settings::submit_form(bad), SettingsStep::ShowError(_)));
    let good = UpdatableUser { id: 1, name: "Alice".to_string(), pfp: None };
    assert!(matches!(settings::submit_form(good), SettingsStep::Send(_)));
    let _ = settings::Props;
}

#[test]
fn not_found_page() {
    assert_eq!(NotFound.lines().1, "This route doesn't exist");
}

#[test]
fn whole_check_collects_every_problem() {
    let mut env = vec![true; 13];
    env[6] = false;
    let mut programs = vec![true; 6];
    programs[4] = false;
    let report = EnvAction::check_setup(&env, &programs, &Some("x86_64-unknown-linux-gnu\n".to_string()));
    assert_eq!(report.problems, vec![Error, Warning, Warning]);
    assert_eq!(report.verdict, SetupVerdict::Broken { fatal: 1, warnings: 2 });

    let ready = EnvAction::check_setup(
        &vec![true; 13],
        &vec![true; 6],
        &Some("wasm32-unknown-unknown\n".to_string()),
    );
    assert_eq!(ready.verdict, SetupVerdict::Ready);

    let no_listing = EnvAction::check_setup(&vec![true; 13], &vec![true; 6], &None);
    assert_eq!(no_listing.verdict, SetupVerdict::Degraded { warnings: 1 });
}
