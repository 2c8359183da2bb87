use form_submission::http::{index, index_response, submit, submit_json, success_response, SubmitOutcome};
use form_submission::mailer::AppConfig;
use form_submission::strings::{success_msg, welcome_msg};

fn test_config() -> AppConfig {
    AppConfig {
        sending_email: String::from("sender@example.com"),
        destination_email: String::from("owner@example.com"),
    }
}

#[test]
fn scenario_form_success() {
    let body = "full_name=Full+Name&email=test%40test.com&subject=mail+title&message=hello&from_site=site.com";
    match submit(body, &test_config()) {
        SubmitOutcome::Dispatch(_) => {
            let response = success_response();
            assert!(response.status == 200);
            assert!(response.body == success_msg());
        }
        SubmitOutcome::Respond(response) => panic!("rejected: {}", response.body),
    }
}

#[test]
fn scenario_form_missing_at_sign() {
    let body = "full_name=Full+Name&email=testtest.com&subject=mail+title&message=hello&from_site=site.com";
    match submit(body, &test_config()) {
        SubmitOutcome::Respond(response) => {
            assert!(response.status == 400);
            assert!(
                response.body
                    == "email: Invalid email address provided. Please check email and try again."
            );
        }
        SubmitOutcome::Dispatch(_) => panic!("address without @ was accepted"),
    }
}

#[test]
fn scenario_json_success() {
    let body = "{\"fullname\":\"Named\",\"email\":\"test@test.com\",\"subject\":\"mail\",\"message\":\"hi\",\"site\":\"site.com\"}";
    match submit_json(body, &test_config()) {
        SubmitOutcome::Dispatch(_) => {
            let response = success_response();
            assert!(response.status == 200);
            assert!(response.body == success_msg());
        }
        SubmitOutcome::Respond(response) => panic!("rejected: {}", response.body),
    }
}

#[test]
fn scenario_json_invalid_local_part() {
    let body = "{\"fullname\":\"Named\",\"email\":\"(test@test.com\",\"subject\":\"mail\",\"message\":\"hi\",\"site\":\"site.com\"}";
    match submit_json(body, &test_config()) {
        SubmitOutcome::Respond(response) => {
            assert!(response.status == 400);
            assert!(
                response.body
                    == "email: Invalid email address provided. Please check email and try again."
            );
        }
        SubmitOutcome::Dispatch(_) => panic!("invalid local part was accepted"),
    }
}

#[test]
fn scenario_index_independent_of_posts() {
    let before = index_response();
    assert!(before.status == 200);
    assert!(before.body == welcome_msg());
    // a submission in between changes nothing the index serves
    let body = "full_name=Full+Name&email=test%40test.com&message=hello&from_site=site.com";
    let _ = submit(body, &test_config());
    let after = index_response();
    assert!(after.status == 200);
    assert!(after.body == before.body);
    assert!(index() == "Welcome to the form submission service!");
}
