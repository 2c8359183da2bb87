//! Validation of the submitter's email address.

use vstd::prelude::*;
use validator::ValidateEmail;
use crate::fields::Submission;
use crate::strings::{email_error_text, email_error_msg};

verus! {

/// Whether the validation crate accepts a string as an email address.
/// The verdict is a function of the characters alone.
pub uninterp spec fn email_accepted(s: Seq<char>) -> bool;

/// Relies on `validator::ValidateEmail::validate_email` for `&str`: the
/// verdict depends on the characters alone; an empty string and a string
/// without `@` are rejected.
#[verifier::external_body]
fn validate_email_str(s: &str) -> (r: bool)
    ensures
        r == email_accepted(s@),
        s@.len() == 0 ==> !r,
        (forall|j: int| 0 <= j < s@.len() ==> s@[j] != '@') ==> !r,
{
    s.validate_email()
}

/// Checks the submitter's email address, reporting the user-facing
/// validation message on failure.
pub fn validate_submission(s: &Submission) -> (r: Result<(), String>)
    ensures
        r is Ok <==> email_accepted(s.email@),
        r matches Err(m) ==> m@ == email_error_text(),
{
    if validate_email_str(s.email.as_str()) {
        Ok(())
    } else {
        Err(email_error_msg().to_owned())
    }
}

/// Validation is idempotent: two verdicts on the same non-empty address
/// always agree, because the verdict is a function of the address alone.
pub proof fn lemma_validation_idempotent(s: Seq<char>, v1: bool, v2: bool)
    requires
        s.len() > 0,
        v1 == email_accepted(s),
        v2 == email_accepted(s),
    ensures
        v1 == v2,
{
}

} // verus!
