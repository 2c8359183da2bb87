//! The fixed texts of the service: greeting, success message, canonical
//! default subject line and the validation error message.

use vstd::prelude::*;

verus! {

/// The greeting returned by the index endpoint.
pub open spec fn welcome_text() -> Seq<char> {
    "Welcome to the form submission service!"@
}

/// The body returned after a successful submission.
pub open spec fn success_text() -> Seq<char> {
    "Your message has been sent successfully!"@
}

/// The canonical default subject line.  It is the single source of truth
/// shared by the decoders (which default an absent `subject` to it) and by
/// the composer (which branches on whether the subject differs from it).
pub open spec fn default_subject() -> Seq<char> {
    "You have received a new message from"@
}

/// The user-facing text reported when the submitted email address is
/// rejected, prefixed with the name of the offending field.
pub open spec fn email_error_text() -> Seq<char> {
    "email: Invalid email address provided. Please check email and try again."@
}

/// The greeting served on `GET /`.
pub fn welcome_msg() -> (r: &'static str)
    ensures
        r@ == welcome_text(),
{
    "Welcome to the form submission service!"
}

/// The body served after a successful submission.
pub fn success_msg() -> (r: &'static str)
    ensures
        r@ == success_text(),
{
    "Your message has been sent successfully!"
}

/// The user-facing validation failure body.
pub fn email_error_msg() -> (r: &'static str)
    ensures
        r@ == email_error_text(),
{
    "email: Invalid email address provided. Please check email and try again."
}

} // verus!
