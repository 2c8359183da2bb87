//! The normalized submission record and the mapping from accepted field
//! aliases to canonical fields.
//!
//! Both decode paths (form-urlencoded and JSON) produce a list of decoded
//! key/value pairs; [`build_submission`] turns such a list into a
//! [`Submission`], matching keys case-insensitively against the accepted
//! aliases, letting a later occurrence of a field override an earlier one,
//! and defaulting an absent `subject` to the canonical default line.

use vstd::prelude::*;
use crate::text::{chars_of, lower_chars, chars_eq_str, lower_seq};
use crate::strings::default_subject;

verus! {

/// The canonical fields of a submission; `Other` stands for any key that is
/// no accepted alias and is ignored.
#[derive(Clone, Copy, Debug, PartialEq, Eq, Structural)]
pub enum FieldId {
    FullName,
    Email,
    Subject,
    MessageText,
    FromSite,
    Other,
}

/// Why a submission could not be decoded.
#[derive(Clone, Copy, Debug, PartialEq, Eq, Structural)]
pub enum DecodeError {
    /// A required field was absent from the request body.
    MissingField(FieldId),
    /// The form body held a malformed or unsupported percent escape.
    BadEncoding,
    /// The JSON body was not an object of string members.
    BadSyntax,
}

/// The canonical name of a field, as reported in error messages.
pub open spec fn field_name_text(f: FieldId) -> Seq<char> {
    match f {
        FieldId::FullName => "full_name"@,
        FieldId::Email => "email"@,
        FieldId::Subject => "subject"@,
        FieldId::MessageText => "message"@,
        FieldId::FromSite => "from_site"@,
        FieldId::Other => "unknown"@,
    }
}

/// The description of a decode failure.
pub open spec fn decode_error_text(e: DecodeError) -> Seq<char> {
    match e {
        DecodeError::MissingField(f) => "missing required field: "@ + field_name_text(f),
        DecodeError::BadEncoding => "malformed form body encoding"@,
        DecodeError::BadSyntax => "malformed JSON body"@,
    }
}

impl FieldId {
    /// The canonical name of the field.
    pub fn name(&self) -> (r: &'static str)
        ensures
            r@ == field_name_text(*self),
    {
        match self {
            FieldId::FullName => "full_name",
            FieldId::Email => "email",
            FieldId::Subject => "subject",
            FieldId::MessageText => "message",
            FieldId::FromSite => "from_site",
            FieldId::Other => "unknown",
        }
    }
}

impl DecodeError {
    /// Describes the failure for the caller.
    pub fn message(&self) -> (r: String)
        ensures
            r@ == decode_error_text(*self),
    {
        match self {
            DecodeError::MissingField(f) => {
                let mut s = "missing required field: ".to_owned();
                s.append(f.name());
                s
            },
            DecodeError::BadEncoding => "malformed form body encoding".to_owned(),
            DecodeError::BadSyntax => "malformed JSON body".to_owned(),
        }
    }
}

/// One inbound contact-form request, normalized.
#[derive(Debug)]
pub struct Submission {
    pub full_name: String,
    pub email: String,
    pub subject: String,
    pub message: String,
    pub from_site: String,
}

/// The mathematical value of a [`Submission`].
pub ghost struct SubmissionView {
    pub full_name: Seq<char>,
    pub email: Seq<char>,
    pub subject: Seq<char>,
    pub message: Seq<char>,
    pub from_site: Seq<char>,
}

impl View for Submission {
    type V = SubmissionView;

    open spec fn view(&self) -> SubmissionView {
        SubmissionView {
            full_name: self.full_name@,
            email: self.email@,
            subject: self.subject@,
            message: self.message@,
            from_site: self.from_site@,
        }
    }
}

/// The canonical field that a key names, after ASCII lower-casing.
pub open spec fn field_of(key: Seq<char>) -> FieldId {
    let k = lower_seq(key);
    if k == "full_name"@ || k == "fullname"@ {
        FieldId::FullName
    } else if k == "email"@ || k == "e-mail"@ {
        FieldId::Email
    } else if k == "subject"@ {
        FieldId::Subject
    } else if k == "message"@ {
        FieldId::MessageText
    } else if k == "from_site"@ || k == "site"@ || k == "website"@ || k == "location"@ {
        FieldId::FromSite
    } else {
        FieldId::Other
    }
}

/// Classifies a decoded key.
pub fn classify_field(key: &str) -> (r: FieldId)
    ensures
        r == field_of(key@),
{
    let v = chars_of(key);
    let k = lower_chars(v.as_slice());
    let ks = k.as_slice();
    if chars_eq_str(ks, "full_name") || chars_eq_str(ks, "fullname") {
        FieldId::FullName
    } else if chars_eq_str(ks, "email") || chars_eq_str(ks, "e-mail") {
        FieldId::Email
    } else if chars_eq_str(ks, "subject") {
        FieldId::Subject
    } else if chars_eq_str(ks, "message") {
        FieldId::MessageText
    } else if chars_eq_str(ks, "from_site") || chars_eq_str(ks, "site") || chars_eq_str(ks, "website")
        || chars_eq_str(ks, "location") {
        FieldId::FromSite
    } else {
        FieldId::Other
    }
}

/// The mathematical value of a decoded key/value pair list.
pub open spec fn pairs_view(ps: Seq<(String, String)>) -> Seq<(Seq<char>, Seq<char>)> {
    ps.map_values(|p: (String, String)| (p.0@, p.1@))
}

/// The value of the last pair whose key names `f`, if any.
pub open spec fn last_value(pairs: Seq<(Seq<char>, Seq<char>)>, f: FieldId) -> Option<Seq<char>>
    decreases pairs.len(),
{
    if pairs.len() == 0 {
        None
    } else if field_of(pairs.last().0) == f {
        Some(pairs.last().1)
    } else {
        last_value(pairs.drop_last(), f)
    }
}

/// The first required field that the pair list leaves unset, if any.
pub open spec fn required_missing(pairs: Seq<(Seq<char>, Seq<char>)>) -> Option<FieldId> {
    if last_value(pairs, FieldId::FullName) is None {
        Some(FieldId::FullName)
    } else if last_value(pairs, FieldId::Email) is None {
        Some(FieldId::Email)
    } else if last_value(pairs, FieldId::MessageText) is None {
        Some(FieldId::MessageText)
    } else if last_value(pairs, FieldId::FromSite) is None {
        Some(FieldId::FromSite)
    } else {
        None
    }
}

/// The submission that a pair list with no missing required field denotes.
pub open spec fn built_submission(pairs: Seq<(Seq<char>, Seq<char>)>) -> SubmissionView {
    SubmissionView {
        full_name: last_value(pairs, FieldId::FullName)->Some_0,
        email: last_value(pairs, FieldId::Email)->Some_0,
        subject: match last_value(pairs, FieldId::Subject) {
            Some(s) => s,
            None => default_subject(),
        },
        message: last_value(pairs, FieldId::MessageText)->Some_0,
        from_site: last_value(pairs, FieldId::FromSite)->Some_0,
    }
}

/// Assembles a submission from a list of decoded key/value pairs.
///
/// A later pair overrides an earlier one for the same field; keys are
/// matched case-insensitively against the accepted aliases; an absent
/// `subject` defaults to the canonical default line; a required field left
/// unset is an error naming that field.
pub fn build_submission(pairs: Vec<(String, String)>) -> (r: Result<Submission, DecodeError>)
    ensures
        match required_missing(pairs_view(pairs@)) {
            Some(f) => r == Err::<Submission, DecodeError>(DecodeError::MissingField(f)),
            None => r matches Ok(s) && s@ == built_submission(pairs_view(pairs@)),
        },
{
    let ghost all = pairs_view(pairs@);
    let mut full_name: Option<String> = None;
    let mut email: Option<String> = None;
    let mut subject: Option<String> = None;
    let mut message: Option<String> = None;
    let mut from_site: Option<String> = None;
    let n = pairs.len();
    let mut i: usize = 0;
    while i < n
        invariant
            i <= n,
            n == pairs@.len(),
            slot_tracks(full_name, pairs_view(pairs@.subrange(0, i as int)), FieldId::FullName),
            slot_tracks(email, pairs_view(pairs@.subrange(0, i as int)), FieldId::Email),
            slot_tracks(subject, pairs_view(pairs@.subrange(0, i as int)), FieldId::Subject),
            slot_tracks(message, pairs_view(pairs@.subrange(0, i as int)), FieldId::MessageText),
            slot_tracks(from_site, pairs_view(pairs@.subrange(0, i as int)), FieldId::FromSite),
        decreases n - i,
    {
        let ghost prefix = pairs_view(pairs@.subrange(0, i as int));
        let key = &pairs[i].0;
        let value = pairs[i].1.clone();
        proof {
            assert(pairs@.subrange(0, i + 1).drop_last() =~= pairs@.subrange(0, i as int));
            assert(pairs_view(pairs@.subrange(0, i + 1)).drop_last() =~= prefix);
            assert(pairs_view(pairs@.subrange(0, i + 1)).last() == (pairs@[i as int].0@, pairs@[i as int].1@));
            lemma_last_value_push(pairs_view(pairs@.subrange(0, i + 1)));
        }
        match classify_field(key.as_str()) {
            FieldId::FullName => { full_name = Some(value); },
            FieldId::Email => { email = Some(value); },
            FieldId::Subject => { subject = Some(value); },
            FieldId::MessageText => { message = Some(value); },
            FieldId::FromSite => { from_site = Some(value); },
            FieldId::Other => {},
        }
        i = i + 1;
    }
    proof {
        assert(pairs@.subrange(0, n as int) =~= pairs@);
    }
    let full_name = match full_name {
        Some(v) => v,
        None => { return Err(DecodeError::MissingField(FieldId::FullName)); },
    };
    let email = match email {
        Some(v) => v,
        None => { return Err(DecodeError::MissingField(FieldId::Email)); },
    };
    let message = match message {
        Some(v) => v,
        None => { return Err(DecodeError::MissingField(FieldId::MessageText)); },
    };
    let from_site = match from_site {
        Some(v) => v,
        None => { return Err(DecodeError::MissingField(FieldId::FromSite)); },
    };
    let subject = match subject {
        Some(v) => v,
        None => crate::mailer::default_subject_line(),
    };
    Ok(Submission { full_name, email, subject, message, from_site })
}

/// A slot of the assembly loop holds exactly the last value named so far.
pub open spec fn slot_tracks(
    slot: Option<String>,
    pairs: Seq<(Seq<char>, Seq<char>)>,
    f: FieldId,
) -> bool {
    match slot {
        None => last_value(pairs, f) is None,
        Some(s) => last_value(pairs, f) == Some(s@),
    }
}

/// Unfolds `last_value` on a non-empty pair list, for every field at once.
proof fn lemma_last_value_push(pairs: Seq<(Seq<char>, Seq<char>)>)
    requires
        pairs.len() > 0,
    ensures
        forall|f: FieldId| #[trigger] last_value(pairs, f) == if field_of(pairs.last().0) == f {
            Some(pairs.last().1)
        } else {
            last_value(pairs.drop_last(), f)
        },
{
}

/// Two pair lists whose keys name the same fields and whose values agree
/// select the same last value for every field.
proof fn lemma_last_value_congruent(
    p1: Seq<(Seq<char>, Seq<char>)>,
    p2: Seq<(Seq<char>, Seq<char>)>,
    f: FieldId,
)
    requires
        p1.len() == p2.len(),
        forall|i: int|
            0 <= i < p1.len() ==> field_of(#[trigger] p1[i].0) == field_of(p2[i].0) && p1[i].1
                == p2[i].1,
    ensures
        last_value(p1, f) == last_value(p2, f),
    decreases p1.len(),
{
    if p1.len() > 0 {
        assert(p1.last() == p1[p1.len() - 1]);
        lemma_last_value_congruent(p1.drop_last(), p2.drop_last(), f);
    }
}

/// Alias equivalence: submissions differing only in which accepted alias
/// named a field are the same submission.  Two pair lists of equal length
/// whose keys name the same canonical fields and whose values agree are
/// missing the same required fields and build equal submissions.
pub proof fn lemma_alias_equivalence(
    p1: Seq<(Seq<char>, Seq<char>)>,
    p2: Seq<(Seq<char>, Seq<char>)>,
)
    requires
        p1.len() == p2.len(),
        forall|i: int|
            0 <= i < p1.len() ==> field_of(#[trigger] p1[i].0) == field_of(p2[i].0) && p1[i].1
                == p2[i].1,
    ensures
        required_missing(p1) == required_missing(p2),
        built_submission(p1) == built_submission(p2),
{
    lemma_last_value_congruent(p1, p2, FieldId::FullName);
    lemma_last_value_congruent(p1, p2, FieldId::Email);
    lemma_last_value_congruent(p1, p2, FieldId::Subject);
    lemma_last_value_congruent(p1, p2, FieldId::MessageText);
    lemma_last_value_congruent(p1, p2, FieldId::FromSite);
}

} // verus!
