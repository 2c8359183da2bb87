//! Configuration resolution, message composition and preparation of the
//! outbound email.
//!
//! The mailbox parsing and the message building are done by the mail
//! crate behind trusted wrappers; everything composed — subject line,
//! body text and the from line — is specified exactly.

use vstd::prelude::*;
use vstd::string::StringExecFns;
use crate::fields::Submission;
use crate::strings::default_subject;

verus! {

/// Mailbox parsing and message building run through lettre's types.
#[verifier::external_type_specification]
#[verifier::external_body]
pub struct ExMailbox(lettre::message::Mailbox);

#[verifier::external_type_specification]
#[verifier::external_body]
pub struct ExAddressError(lettre::address::AddressError);

#[verifier::external_type_specification]
#[verifier::external_body]
pub struct ExEmailError(lettre::error::Error);

#[verifier::external_type_specification]
#[verifier::external_body]
pub struct ExMessage(lettre::Message);

#[verifier::external_type_specification]
#[verifier::external_body]
pub struct ExSendmailError(lettre::transport::sendmail::Error);

/// Whether the mail crate parses a string as a mailbox.  The verdict is a
/// function of the characters alone.
pub uninterp spec fn mailbox_accepts(s: Seq<char>) -> bool;

/// Relies on `<lettre::message::Mailbox as FromStr>::from_str`: whether a
/// mailbox string parses depends on its characters alone.
#[verifier::external_body]
fn parse_mailbox(s: &str) -> (r: Result<lettre::message::Mailbox, lettre::address::AddressError>)
    ensures
        r is Ok <==> mailbox_accepts(s@),
{
    s.parse::<lettre::message::Mailbox>()
}

/// Relies on lettre's `MessageBuilder`: with exactly one `from` mailbox,
/// one `to` mailbox and a plain text body, building the message succeeds.
#[verifier::external_body]
fn build_message(
    from: lettre::message::Mailbox,
    reply_to: lettre::message::Mailbox,
    to: lettre::message::Mailbox,
    subject: String,
    body: String,
) -> (r: Result<lettre::Message, lettre::error::Error>)
    ensures
        r is Ok,
{
    lettre::Message::builder().from(from).reply_to(reply_to).to(to).subject(subject).body(body)
}

/// Relies on `Display` for lettre's address error to describe a rejected
/// address.
#[verifier::external_body]
fn address_error_text(e: &lettre::address::AddressError) -> String {
    e.to_string()
}

/// Relies on `Display` for lettre's message building error to describe it.
#[verifier::external_body]
fn build_error_text(e: &lettre::error::Error) -> String {
    e.to_string()
}

/// Relies on `Display` for lettre's sendmail transport error to describe
/// it.
#[verifier::external_body]
fn sendmail_error_text(e: &lettre::transport::sendmail::Error) -> String {
    e.to_string()
}

/// Why the configuration could not be resolved.
#[derive(Clone, Copy, Debug, PartialEq, Eq, Structural)]
pub enum ConfigError {
    MissingSendingEmail,
    MissingDestinationEmail,
}

/// The description of a configuration failure.
pub open spec fn config_error_text(e: ConfigError) -> Seq<char> {
    match e {
        ConfigError::MissingSendingEmail => "configuration is missing sending_email"@,
        ConfigError::MissingDestinationEmail => "configuration is missing destination_email"@,
    }
}

impl ConfigError {
    /// Describes the failure for the caller.
    pub fn message(&self) -> (r: String)
        ensures
            r@ == config_error_text(*self),
    {
        match self {
            ConfigError::MissingSendingEmail => "configuration is missing sending_email".to_owned(),
            ConfigError::MissingDestinationEmail => "configuration is missing destination_email"
                .to_owned(),
        }
    }
}

/// The resolved mail configuration: the address the notification is sent
/// from and the address it is delivered to.
#[derive(Debug)]
pub struct AppConfig {
    pub sending_email: String,
    pub destination_email: String,
}

/// Potential errors which can be created when sending an email.
pub enum MailConfigError {
    AppConfig(ConfigError),
    AddressParse(lettre::address::AddressError),
    EmailBuild(lettre::error::Error),
    SendmailTransport(lettre::transport::sendmail::Error),
}

impl MailConfigError {
    /// Describes the failure for the caller.
    pub fn message(&self) -> (r: String)
        ensures
            self matches MailConfigError::AppConfig(c) ==> r@ == config_error_text(*c),
    {
        match self {
            MailConfigError::AppConfig(c) => c.message(),
            MailConfigError::AddressParse(e) => address_error_text(e),
            MailConfigError::EmailBuild(e) => build_error_text(e),
            MailConfigError::SendmailTransport(e) => sendmail_error_text(e),
        }
    }
}

/// The layered choice of one configuration value: the environment
/// overrides the profile file.
pub open spec fn chosen(env: Option<String>, file: Option<String>) -> Option<Seq<char>> {
    match env {
        Some(e) => Some(e@),
        None => match file {
            Some(f) => Some(f@),
            None => None,
        },
    }
}

/// Resolves the configuration from its layered sources.
///
/// A value from the environment overrides one from the profile file; each
/// of the two addresses is required, and the first one absent from both
/// sources names the error.
pub fn resolve_config(
    file_sending: Option<String>,
    file_destination: Option<String>,
    env_sending: Option<String>,
    env_destination: Option<String>,
) -> (r: Result<AppConfig, ConfigError>)
    ensures
        match (chosen(env_sending, file_sending), chosen(env_destination, file_destination)) {
            (None, _) => r == Err::<AppConfig, ConfigError>(ConfigError::MissingSendingEmail),
            (Some(_), None) => r == Err::<AppConfig, ConfigError>(
                ConfigError::MissingDestinationEmail,
            ),
            (Some(se), Some(de)) => r matches Ok(c) && c.sending_email@ == se
                && c.destination_email@ == de,
        },
{
    let sending = match env_sending {
        Some(e) => e,
        None => match file_sending {
            Some(f) => f,
            None => {
                return Err(ConfigError::MissingSendingEmail);
            },
        },
    };
    let destination = match env_destination {
        Some(e) => e,
        None => match file_destination {
            Some(f) => f,
            None => {
                return Err(ConfigError::MissingDestinationEmail);
            },
        },
    };
    Ok(AppConfig { sending_email: sending, destination_email: destination })
}

/// Provides a default subject line for emails sent, if one is not present with form data.
pub fn default_subject_line() -> (r: String)
    ensures
        r@ == default_subject(),
{
    let s = "You have received a new message from";
    s.to_owned()
}

/// The composed subject line: the submission's subject, the originating
/// site and an exclamation mark.
pub open spec fn composed_subject(subject: Seq<char>, site: Seq<char>) -> Seq<char> {
    subject + " "@ + site + "!"@
}

/// The composed body text: a custom subject is announced together with
/// the sender; the default subject keeps the generic wording.
pub open spec fn composed_body(full_name: Seq<char>, subject: Seq<char>, message: Seq<char>) -> Seq<
    char,
> {
    if subject != default_subject() {
        full_name + " has sent a message.\nSubject: "@ + subject + "\n\nMessage: "@ + message
    } else {
        full_name + " sent you the following message:\n\n"@ + message
    }
}

/// The from line handed to the mailbox parser: the submitter's name with
/// the configured sending address.
pub open spec fn from_line(full_name: Seq<char>, sending: Seq<char>) -> Seq<char> {
    full_name + " <"@ + sending + ">"@
}

/// Builds the outbound subject line.
pub fn compose_subject(subject: &str, site: &str) -> (r: String)
    ensures
        r@ == composed_subject(subject@, site@),
{
    let mut s = subject.to_owned();
    s.append(" ");
    s.append(site);
    s.append("!");
    s
}

/// Builds the outbound body text.
pub fn compose_body(full_name: &str, subject: &String, message: &str) -> (r: String)
    ensures
        r@ == composed_body(full_name@, subject@, message@),
{
    let d = default_subject_line();
    if !subject.eq(&d) {
        let mut s = full_name.to_owned();
        s.append(" has sent a message.\nSubject: ");
        s.append(subject.as_str());
        s.append("\n\nMessage: ");
        s.append(message);
        s
    } else {
        let mut s = full_name.to_owned();
        s.append(" sent you the following message:\n\n");
        s.append(message);
        s
    }
}

/// Builds the from line.
pub fn compose_from_line(full_name: &str, sending: &str) -> (r: String)
    ensures
        r@ == from_line(full_name@, sending@),
{
    let mut s = full_name.to_owned();
    s.append(" <");
    s.append(sending);
    s.append(">");
    s
}

/// Composes and builds the outbound message for a validated submission.
///
/// The from mailbox carries the submitter's name with the configured
/// sending address, the reply-to mailbox is the submitter's address and
/// the to mailbox the configured destination; the first of the three the
/// mail crate rejects names the error, and with all three accepted the
/// message is built.
pub fn prepare_email(sub: &Submission, config: &AppConfig) -> (r: Result<
    lettre::Message,
    MailConfigError,
>)
    ensures
        !mailbox_accepts(sub.email@) ==> r matches Err(MailConfigError::AddressParse(_)),
        mailbox_accepts(sub.email@) && !mailbox_accepts(
            from_line(sub.full_name@, config.sending_email@),
        ) ==> r matches Err(MailConfigError::AddressParse(_)),
        mailbox_accepts(sub.email@) && mailbox_accepts(
            from_line(sub.full_name@, config.sending_email@),
        ) && !mailbox_accepts(config.destination_email@) ==> r matches Err(
            MailConfigError::AddressParse(_),
        ),
        mailbox_accepts(sub.email@) && mailbox_accepts(
            from_line(sub.full_name@, config.sending_email@),
        ) && mailbox_accepts(config.destination_email@) ==> r is Ok,
{
    let reply_to = match parse_mailbox(sub.email.as_str()) {
        Ok(m) => m,
        Err(e) => {
            return Err(MailConfigError::AddressParse(e));
        },
    };
    let from_text = compose_from_line(sub.full_name.as_str(), config.sending_email.as_str());
    let from = match parse_mailbox(from_text.as_str()) {
        Ok(m) => m,
        Err(e) => {
            return Err(MailConfigError::AddressParse(e));
        },
    };
    let to = match parse_mailbox(config.destination_email.as_str()) {
        Ok(m) => m,
        Err(e) => {
            return Err(MailConfigError::AddressParse(e));
        },
    };
    let subject = compose_subject(sub.subject.as_str(), sub.from_site.as_str());
    let body = compose_body(sub.full_name.as_str(), &sub.subject, sub.message.as_str());
    match build_message(from, reply_to, to, subject, body) {
        Ok(m) => Ok(m),
        Err(e) => Err(MailConfigError::EmailBuild(e)),
    }
}

/// Default subject law: composing with the canonical default subject
/// yields the generic wording, composing with any other subject announces
/// that subject in the body, and the subject line always carries the
/// submission's subject.
pub proof fn lemma_default_subject_law(
    full_name: Seq<char>,
    subject: Seq<char>,
    message: Seq<char>,
    site: Seq<char>,
)
    ensures
        subject == default_subject() ==> composed_body(full_name, subject, message) == full_name
            + " sent you the following message:\n\n"@ + message,
        subject != default_subject() ==> composed_body(full_name, subject, message) == full_name
            + " has sent a message.\nSubject: "@ + subject + "\n\nMessage: "@ + message,
        composed_subject(subject, site) == subject + " "@ + site + "!"@,
{
}

/// A submission that omits the subject is built with the canonical
/// default subject, and therefore composes the generic body wording.
pub proof fn lemma_omitted_subject_uses_default(pairs: Seq<(Seq<char>, Seq<char>)>)
    requires
        crate::fields::last_value(pairs, crate::fields::FieldId::Subject) is None,
    ensures
        crate::fields::built_submission(pairs).subject == default_subject(),
        composed_body(
            crate::fields::built_submission(pairs).full_name,
            crate::fields::built_submission(pairs).subject,
            crate::fields::built_submission(pairs).message,
        ) == crate::fields::built_submission(pairs).full_name
            + " sent you the following message:\n\n"@ + crate::fields::built_submission(
            pairs,
        ).message,
{
}

} // verus!

