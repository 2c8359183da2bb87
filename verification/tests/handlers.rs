use form_submission::http::{index, submit, submit_json, success_response, SubmitOutcome};
use form_submission::mailer::AppConfig;
use form_submission::strings::{welcome_msg, success_msg};

fn test_config() -> AppConfig {
    AppConfig {
        sending_email: String::from("sender@example.com"),
        destination_email: String::from("owner@example.com"),
    }
}

fn create_form_body(email: &str) -> String {
    format!("fullname=Full+Name&email={email}&subject=mail+title&message=You+have+a+new+inquiry+from&site=site.com")
}

fn create_json_body(email: &str) -> String {
    format!("{{\"fullname\":\"Named\",\"email\":\"{email}\",\"subject\":\"mail\",\"message\":\"You have a new inquiry from\",\"site\":\"site.com\"}}")
}

fn test_email_validity(validation_input: (&str, &str), config: &AppConfig) {
    let form_body = create_form_body(validation_input.0);
    match submit(&form_body, config) {
        SubmitOutcome::Respond(response) => {
            assert!(response.status == 400);
            assert!(
                response.body
                    == "email: Invalid email address provided. Please check email and try again."
            );
        }
        SubmitOutcome::Dispatch(_) => panic!("invalid email was accepted: {}", validation_input.0),
    }
}

fn test_email_validity_json(validation_input: (&str, &str), config: &AppConfig) {
    let form_body = create_json_body(validation_input.0);
    match submit_json(&form_body, config) {
        SubmitOutcome::Respond(response) => {
            assert!(response.status == 400);
            assert!(
                response.body
                    == "email: Invalid email address provided. Please check email and try again."
            );
        }
        SubmitOutcome::Dispatch(_) => panic!("invalid email was accepted: {}", validation_input.0),
    }
}

#[test]
fn test_index() {
    let response = index();
    assert!(response == welcome_msg());
    assert!(response == "Welcome to the form submission service!");
}

#[test]
fn test_submit() {
    let email_valid = "test%40test.com";
    let config = test_config();
    let form_body = create_form_body(email_valid);
    match submit(&form_body, &config) {
        SubmitOutcome::Dispatch(_) => {
            let response = success_response();
            assert!(response.status == 200);
            assert!(response.body == success_msg());
        }
        SubmitOutcome::Respond(response) => {
            panic!("valid submission was rejected: {}", response.body)
        }
    }

    test_email_validity(("testtest.com", "Missing domain or user"), &config);
    test_email_validity(("Test User <testtest.com", "Unbalanced angle bracket"), &config);
    test_email_validity(("(test@test.com", "Invalid email user"), &config);
    test_email_validity(("test@#test.com", "Invalid email domain"), &config);
}

#[test]
fn test_submit_json() {
    let email_valid = "test@test.com";
    let config = test_config();
    let form_body = create_json_body(email_valid);
    match submit_json(&form_body, &config) {
        SubmitOutcome::Dispatch(_) => {
            let response = success_response();
            assert!(response.status == 200);
            assert!(response.body == success_msg());
        }
        SubmitOutcome::Respond(response) => {
            panic!("valid submission was rejected: {}", response.body)
        }
    }

    test_email_validity_json(("testtest.com", "Missing domain or user"), &config);
    test_email_validity_json(("Test User <testtest.com", "Unbalanced angle bracket"), &config);
    test_email_validity_json(("(test@test.com", "Invalid email user"), &config);
    test_email_validity_json(("test@#test.com", "Invalid email domain"), &config);
}
