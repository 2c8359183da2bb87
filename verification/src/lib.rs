//! A verified contact-form backend library.
//!
//! The library decodes form-urlencoded and JSON submissions, validates the
//! submitter's email address, composes an outbound notification message and
//! prepares it for hand-off to a sendmail transport.  All decoding,
//! validation and composition logic is specified and verified; the calls
//! into the mail and validation crates stand behind small trusted wrappers.

pub mod fields;
pub mod form;
pub mod http;
pub mod json;
pub mod mailer;
pub mod strings;
pub mod text;
pub mod validate;
