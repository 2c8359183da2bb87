use form_submission::fields::Submission;
use form_submission::http::{error_response, submit, SubmitOutcome};
use form_submission::mailer::{
    compose_body, compose_from_line, compose_subject, default_subject_line, prepare_email,
    resolve_config, AppConfig, ConfigError, MailConfigError,
};
use form_submission::validate::validate_submission;

fn sample_submission(email: &str, subject: &str) -> Submission {
    Submission {
        full_name: String::from("Full Name"),
        email: String::from(email),
        subject: String::from(subject),
        message: String::from("hello"),
        from_site: String::from("site.com"),
    }
}

fn test_config() -> AppConfig {
    AppConfig {
        sending_email: String::from("sender@example.com"),
        destination_email: String::from("owner@example.com"),
    }
}

#[test]
fn subject_line_composition() {
    assert_eq!(compose_subject("mail title", "site.com"), "mail title site.com!");
    assert_eq!(
        compose_subject(&default_subject_line(), "site.com"),
        "You have received a new message from site.com!"
    );
}

#[test]
fn body_composition_branches_on_default_subject() {
    let generic = compose_body("Full Name", &default_subject_line(), "hello");
    assert_eq!(generic, "Full Name sent you the following message:\n\nhello");

    let custom = compose_body("Full Name", &String::from("mail title"), "hello");
    assert_eq!(
        custom,
        "Full Name has sent a message.\nSubject: mail title\n\nMessage: hello"
    );
}

#[test]
fn from_line_composition() {
    assert_eq!(
        compose_from_line("Full Name", "sender@example.com"),
        "Full Name <sender@example.com>"
    );
}

#[test]
fn default_subject_line_value() {
    assert_eq!(default_subject_line(), "You have received a new message from");
}

#[test]
fn validation_is_idempotent() {
    let sub = sample_submission("test@test.com", "mail");
    let first = validate_submission(&sub).is_ok();
    let second = validate_submission(&sub).is_ok();
    assert_eq!(first, second);
    assert!(first);

    let bad = sample_submission("testtest.com", "mail");
    let first = validate_submission(&bad).is_ok();
    let second = validate_submission(&bad).is_ok();
    assert_eq!(first, second);
    assert!(!first);
    assert_eq!(
        validate_submission(&bad).unwrap_err(),
        "email: Invalid email address provided. Please check email and try again."
    );
}

#[test]
fn prepare_builds_for_valid_addresses() {
    let sub = sample_submission("test@test.com", "mail");
    assert!(prepare_email(&sub, &test_config()).is_ok());
}

#[test]
fn prepare_rejects_bad_destination() {
    let sub = sample_submission("test@test.com", "mail");
    let config = AppConfig {
        sending_email: String::from("sender@example.com"),
        destination_email: String::from("not an address"),
    };
    match prepare_email(&sub, &config) {
        Err(MailConfigError::AddressParse(_)) => {}
        Err(_) => panic!("wrong error kind for a bad destination"),
        Ok(_) => panic!("bad destination was accepted"),
    }
    // the same configuration turns a well-formed request into a 400 reply
    let body = "full_name=Full+Name&email=test%40test.com&message=hello&from_site=site.com";
    match submit(body, &config) {
        SubmitOutcome::Respond(response) => assert!(response.status == 400),
        SubmitOutcome::Dispatch(_) => panic!("bad destination was dispatched"),
    }
}

#[test]
fn config_environment_overrides_file() {
    let resolved = resolve_config(
        Some(String::from("file-sender@example.com")),
        Some(String::from("file-owner@example.com")),
        Some(String::from("env-sender@example.com")),
        None,
    )
    .unwrap();
    assert_eq!(resolved.sending_email, "env-sender@example.com");
    assert_eq!(resolved.destination_email, "file-owner@example.com");
}

#[test]
fn config_missing_fields_are_errors() {
    let e = resolve_config(None, Some(String::from("owner@example.com")), None, None).unwrap_err();
    assert_eq!(e, ConfigError::MissingSendingEmail);
    assert_eq!(e.message(), "configuration is missing sending_email");

    let e = resolve_config(Some(String::from("sender@example.com")), None, None, None)
        .unwrap_err();
    assert_eq!(e, ConfigError::MissingDestinationEmail);
    assert_eq!(e.message(), "configuration is missing destination_email");

    let response = error_response(&MailConfigError::AppConfig(ConfigError::MissingSendingEmail));
    assert!(response.status == 400);
    assert_eq!(response.body, "configuration is missing sending_email");
}
