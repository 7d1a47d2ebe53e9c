use zero2prod::authentication::{reject_anonymous_users, Admission, SessionLookup, UserId};
use zero2prod::configuration::{EmailClientSetting, Environment};
use zero2prod::domain::{SubscriberEmail, SubscriberName};
use zero2prod::middlewares::auth::{AuthMiddleware, Gate};
use zero2prod::startup::{report_exit, ApplicationData, ExitOutcome, LogLevel};
use zero2prod::text::{chain_of, contains_bytes, flash_html};

fn setting(username: &str) -> EmailClientSetting {
    EmailClientSetting {
        smtp_server: "smtp.example.com".to_string(),
        port: 587,
        name: "Newsletter".to_string(),
        username: username.to_string(),
        password: "SECRET-REDACTED".to_string(),
    }
}

#[test]
fn the_sender_is_the_relay_account() {
    assert_eq!(setting("news@example.com").sender().unwrap().as_ref(), "news@example.com");
    assert_eq!(
        setting("relay-user").sender().unwrap_err(),
        "relay-user is not a valid subscriber email."
    );
}

#[test]
fn environments_have_names() {
    assert_eq!(Environment::Local.as_str(), "local");
    assert_eq!(Environment::Production.as_str(), "production");
    assert_eq!(Environment::Local.file_name(), "local.yml");
    assert_eq!(Environment::Production.file_name(), "production.yml");
}

#[test]
fn environments_are_read_in_any_case() {
    assert_eq!(Environment::try_from("local".to_string()), Ok(Environment::Local));
    assert_eq!(Environment::try_from("LOCAL".to_string()), Ok(Environment::Local));
    assert_eq!(Environment::try_from("Production".to_string()), Ok(Environment::Production));
    assert_eq!(
        Environment::try_from("Staging".to_string()),
        Err("staging is not a supported environment. Use either `local` or `production`.".to_string())
    );
    assert_eq!(
        Environment::from_lowercased("LOCAL".to_string()),
        Err("LOCAL is not a supported environment. Use either `local` or `production`.".to_string())
    );
    assert_eq!(Environment::from_setting(None), Ok(Environment::Local));
    assert_eq!(Environment::from_setting(Some("PRODUCTION".to_string())), Ok(Environment::Production));
    assert!(Environment::from_setting(Some(String::new())).is_err());
}

#[test]
fn names_are_validated() {
    assert_eq!(SubscriberName::parse("Ursula Le Guin".to_string()).unwrap().as_ref(), "Ursula Le Guin");
    assert!(SubscriberName::parse("ё".repeat(256)).is_ok());
    assert!(SubscriberName::parse("a".repeat(257)).is_err());
    assert_eq!(SubscriberName::parse(String::new()).unwrap_err(), " is not a valid subscriber name.");
    assert!(SubscriberName::parse(" ".to_string()).is_err());
    assert!(SubscriberName::parse(" \t\r\n\u{a0}\u{2003}\u{3000}".to_string()).is_err());
    assert!(SubscriberName::parse(" a ".to_string()).is_ok());
    for forbidden in ['/', '(', ')', '"', '<', '>', '\\', '{', '}'] {
        let name = format!("Ursula{}", forbidden);
        assert_eq!(
            SubscriberName::parse(name.clone()).unwrap_err(),
            format!("{} is not a valid subscriber name.", name)
        );
    }
    let name = SubscriberName::parse("Ursula".to_string()).unwrap();
    assert_eq!(name.duplicate().as_ref(), "Ursula");
}

#[test]
fn addresses_are_validated() {
    assert_eq!(
        SubscriberEmail::parse("ursula@domain.com".to_string()).unwrap().as_ref(),
        "ursula@domain.com"
    );
    for refused in ["", "ursuladomain.com", "@domain.com", "ursula@", "a b@domain.com"] {
        assert_eq!(
            SubscriberEmail::parse(refused.to_string()).unwrap_err(),
            format!("{} is not a valid subscriber email.", refused)
        );
    }
    assert_eq!(
        SubscriberEmail::from_checked("kept as given".to_string(), true).unwrap().as_ref(),
        "kept as given"
    );
    assert!(SubscriberEmail::from_checked("ursula@domain.com".to_string(), false).is_err());
}

#[test]
fn only_anonymous_requests_to_admin_routes_are_stopped() {
    let guard = AuthMiddleware;
    assert!(matches!(guard.call("/login", false), Gate::Forward));
    assert!(matches!(guard.call("/admin", false), Gate::Forward));
    assert!(matches!(guard.call("/admin/dashboard", true), Gate::Forward));
    assert!(matches!(guard.call("/x/admin/", false), Gate::Redirect(_)));
    match guard.call("/admin/password", false) {
        Gate::Redirect(response) => {
            assert_eq!(response.status_code, 303);
            assert_eq!(response.headers[0].value, b"/login".to_vec());
        },
        Gate::Forward => panic!("an anonymous request reached an administration route"),
    }
}

#[test]
fn sessions_decide_admission() {
    match reject_anonymous_users(SessionLookup::LoggedIn(5)) {
        Admission::Admit(user) => assert_eq!(user, UserId(5)),
        other => panic!("unexpected admission: {:?}", other),
    }
    match reject_anonymous_users(SessionLookup::Failed("redis is down".to_string())) {
        Admission::Fail(cause) => assert_eq!(cause, "redis is down"),
        other => panic!("unexpected admission: {:?}", other),
    }
}

#[test]
fn bytes_are_searched() {
    assert!(contains_bytes(b"/admin/x", b"/admin/"));
    assert!(contains_bytes(b"xx/admin/", b"/admin/"));
    assert!(!contains_bytes(b"/admin", b"/admin/"));
    assert!(!contains_bytes(b"", b"/admin/"));
    assert!(contains_bytes(b"", b""));
    assert!(contains_bytes(b"abc", b""));
    assert!(!contains_bytes(b"/admi/admin", b"/admin/"));
    assert!(contains_bytes(b"/adm/admin/", b"/admin/"));
}

#[test]
fn task_exits_are_reported() {
    let exited = report_exit("API", ExitOutcome::Exited);
    assert_eq!(exited.level, LogLevel::Info);
    assert_eq!(exited.message, "API has exited");
    assert_eq!(exited.cause, None);
    let failed = report_exit("Background worker", ExitOutcome::Failed("pool closed".to_string()));
    assert_eq!(failed.level, LogLevel::Error);
    assert_eq!(failed.message, "Background worker failed");
    assert_eq!(failed.cause, Some("pool closed".to_string()));
    let aborted = report_exit("API", ExitOutcome::Aborted("task panicked".to_string()));
    assert_eq!(aborted.level, LogLevel::Error);
    assert_eq!(aborted.message, "API' task failed to complete");
    assert_eq!(aborted.cause, Some("task panicked".to_string()));
    assert_eq!(ApplicationData::EmailClient, ApplicationData::EmailClient);
}

#[test]
fn notes_are_rendered_as_italic_paragraphs() {
    assert_eq!(flash_html(&Vec::new()), "");
    assert_eq!(
        flash_html(&vec!["You have successfully logged out.".to_string(), "second".to_string()]),
        "<p><i>You have successfully logged out.</i></p>\n<p><i>second</i></p>\n"
    );
}

#[test]
fn a_failure_is_chained_before_its_cause() {
    assert_eq!(
        chain_of("Failed to commit", "connection reset".to_string()),
        vec!["Failed to commit".to_string(), "connection reset".to_string()]
    );
}
