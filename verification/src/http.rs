//! The request-level flow: decode, validate, compose, and decide the
//! reply.
//!
//! The functions here perform no I/O.  The submit flow either answers at
//! once (a decode or validation failure, or a rejected address) or hands
//! back the fully built message for the caller to give to the transport;
//! mapping the transport's outcome to a reply is again done here.

use vstd::prelude::*;
use crate::fields::{SubmissionView, DecodeError, decode_error_text};
use crate::form::{decode_form, spec_decode_form};
use crate::json::{decode_json, spec_decode_json};
use crate::validate::{validate_submission, email_accepted};
use crate::mailer::{
    AppConfig, MailConfigError, prepare_email, mailbox_accepts, from_line, config_error_text,
};
use crate::strings::{welcome_text, success_text, email_error_text, welcome_msg, success_msg};

verus! {

/// One reply: a status code with a text body.
pub struct Reply {
    pub status: u16,
    pub body: String,
}

/// What the submit flow decides: reply at once, or dispatch the built
/// message through the mail transport.
pub enum SubmitOutcome {
    Respond(Reply),
    Dispatch(lettre::Message),
}

/// What the submit flow owes for a request whose body decoded to
/// `decoded` under a configuration with the given sending and destination
/// addresses: a decode failure and a rejected email address are answered
/// `400` with their exact texts; a submission the mail crate accepts in
/// full is dispatched; one it rejects is answered `400`.
pub open spec fn submit_outcome_ok(
    decoded: Result<SubmissionView, DecodeError>,
    sending: Seq<char>,
    destination: Seq<char>,
    r: SubmitOutcome,
) -> bool {
    match decoded {
        Err(e) => r matches SubmitOutcome::Respond(rep) && rep.status == 400 && rep.body@
            == decode_error_text(e),
        Ok(sub) => if !email_accepted(sub.email) {
            r matches SubmitOutcome::Respond(rep) && rep.status == 400 && rep.body@
                == email_error_text()
        } else if mailbox_accepts(sub.email) && mailbox_accepts(from_line(sub.full_name, sending))
            && mailbox_accepts(destination) {
            r is Dispatch
        } else {
            r matches SubmitOutcome::Respond(rep) && rep.status == 400
        },
    }
}

/// Serves the index endpoint: the fixed greeting.
pub fn index() -> (r: &'static str)
    ensures
        r@ == welcome_text(),
{
    welcome_msg()
}

/// The reply the index endpoint serves, independent of any prior
/// submission.
pub fn index_response() -> (r: Reply)
    ensures
        r.status == 200,
        r.body@ == welcome_text(),
{
    Reply { status: 200, body: welcome_msg().to_owned() }
}

/// Handles a form-urlencoded submission up to the transport hand-off.
pub fn submit(body: &str, config: &AppConfig) -> (r: SubmitOutcome)
    ensures
        submit_outcome_ok(
            spec_decode_form(body@),
            config.sending_email@,
            config.destination_email@,
            r,
        ),
{
    let sub = match decode_form(body) {
        Ok(s) => s,
        Err(e) => {
            return SubmitOutcome::Respond(Reply { status: 400, body: e.message() });
        },
    };
    match validate_submission(&sub) {
        Err(m) => {
            return SubmitOutcome::Respond(Reply { status: 400, body: m });
        },
        Ok(u) => u,
    };
    match prepare_email(&sub, config) {
        Ok(msg) => SubmitOutcome::Dispatch(msg),
        Err(e) => SubmitOutcome::Respond(Reply { status: 400, body: e.message() }),
    }
}

/// Handles a JSON submission up to the transport hand-off.
pub fn submit_json(body: &str, config: &AppConfig) -> (r: SubmitOutcome)
    ensures
        submit_outcome_ok(
            spec_decode_json(body@),
            config.sending_email@,
            config.destination_email@,
            r,
        ),
{
    let sub = match decode_json(body) {
        Ok(s) => s,
        Err(e) => {
            return SubmitOutcome::Respond(Reply { status: 400, body: e.message() });
        },
    };
    match validate_submission(&sub) {
        Err(m) => {
            return SubmitOutcome::Respond(Reply { status: 400, body: m });
        },
        Ok(u) => u,
    };
    match prepare_email(&sub, config) {
        Ok(msg) => SubmitOutcome::Dispatch(msg),
        Err(e) => SubmitOutcome::Respond(Reply { status: 400, body: e.message() }),
    }
}

/// The reply for a message the transport accepted.
pub fn success_response() -> (r: Reply)
    ensures
        r.status == 200,
        r.body@ == success_text(),
{
    Reply { status: 200, body: success_msg().to_owned() }
}

/// The reply for a preparation or transport failure.
pub fn error_response(e: &MailConfigError) -> (r: Reply)
    ensures
        r.status == 400,
        e matches MailConfigError::AppConfig(c) ==> r.body@ == config_error_text(*c),
{
    Reply { status: 400, body: e.message() }
}

/// Validation precedes dispatch: when the decoded submission carries an
/// address that validation rejects, the flow answers `400` with the
/// validation message, and no message reaches the transport.
pub proof fn lemma_validation_precedes_dispatch(
    decoded: Result<SubmissionView, DecodeError>,
    sending: Seq<char>,
    destination: Seq<char>,
    r: SubmitOutcome,
)
    requires
        submit_outcome_ok(decoded, sending, destination, r),
        decoded matches Ok(sub) && !email_accepted(sub.email),
    ensures
        r matches SubmitOutcome::Respond(rep) && rep.status == 400 && rep.body@
            == email_error_text(),
        !(r is Dispatch),
{
}

} // verus!
