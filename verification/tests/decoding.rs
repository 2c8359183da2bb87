use form_submission::fields::{DecodeError, FieldId, Submission};
use form_submission::form::decode_form;
use form_submission::json::decode_json;
use form_submission::mailer::default_subject_line;

fn assert_same_submission(a: &Submission, b: &Submission) {
    assert_eq!(a.full_name, b.full_name);
    assert_eq!(a.email, b.email);
    assert_eq!(a.subject, b.subject);
    assert_eq!(a.message, b.message);
    assert_eq!(a.from_site, b.from_site);
}

#[test]
fn form_decodes_fields() {
    let sub = decode_form(
        "full_name=Full+Name&email=test%40test.com&subject=mail+title&message=hello&from_site=site.com",
    )
    .unwrap();
    assert_eq!(sub.full_name, "Full Name");
    assert_eq!(sub.email, "test@test.com");
    assert_eq!(sub.subject, "mail title");
    assert_eq!(sub.message, "hello");
    assert_eq!(sub.from_site, "site.com");
}

#[test]
fn form_alias_equivalence() {
    let a = decode_form("full_name=A&email=a%40b.com&message=hi&from_site=s.com").unwrap();
    let b = decode_form("fullname=A&e-mail=a%40b.com&message=hi&site=s.com").unwrap();
    let c = decode_form("FullName=A&EMAIL=a%40b.com&Message=hi&Website=s.com").unwrap();
    let d = decode_form("fullname=A&email=a%40b.com&message=hi&location=s.com").unwrap();
    assert_same_submission(&a, &b);
    assert_same_submission(&a, &c);
    assert_same_submission(&a, &d);
}

#[test]
fn form_and_json_alias_equivalence() {
    let a = decode_form("fullname=Named&email=a%40b.com&subject=mail&message=hi&site=s.com")
        .unwrap();
    let b = decode_json(
        "{\"full_name\":\"Named\",\"e-mail\":\"a@b.com\",\"subject\":\"mail\",\"message\":\"hi\",\"website\":\"s.com\"}",
    )
    .unwrap();
    assert_same_submission(&a, &b);
}

#[test]
fn form_omitted_subject_defaults() {
    let sub = decode_form("full_name=A&email=a%40b.com&message=hi&from_site=s.com").unwrap();
    assert_eq!(sub.subject, default_subject_line());
    assert_eq!(sub.subject, "You have received a new message from");
}

#[test]
fn form_later_field_overrides_earlier() {
    let sub =
        decode_form("full_name=A&email=a%40b.com&email=c%40d.com&message=hi&from_site=s.com")
            .unwrap();
    assert_eq!(sub.email, "c@d.com");
}

#[test]
fn form_missing_fields_are_named() {
    let e = decode_form("email=a%40b.com&message=hi&from_site=s.com").unwrap_err();
    assert_eq!(e, DecodeError::MissingField(FieldId::FullName));
    let e = decode_form("full_name=A&message=hi&from_site=s.com").unwrap_err();
    assert_eq!(e, DecodeError::MissingField(FieldId::Email));
    let e = decode_form("full_name=A&email=a%40b.com&from_site=s.com").unwrap_err();
    assert_eq!(e, DecodeError::MissingField(FieldId::MessageText));
    let e = decode_form("full_name=A&email=a%40b.com&message=hi").unwrap_err();
    assert_eq!(e, DecodeError::MissingField(FieldId::FromSite));
    assert_eq!(e.message(), "missing required field: from_site");
}

#[test]
fn form_utf8_escapes_are_decoded() {
    let sub = decode_form("full_name=Ren%C3%A9&email=a%40b.com&message=hi&from_site=s.com")
        .unwrap();
    assert_eq!(sub.full_name, "René");
    let sub = decode_form("full_name=A&email=a%40b.com&message=%E2%9C%93+done&from_site=s.com")
        .unwrap();
    assert_eq!(sub.message, "✓ done");
}

#[test]
fn form_bad_escapes_are_rejected() {
    let e = decode_form("full_name=%zz&email=a%40b.com&message=hi&from_site=s.com").unwrap_err();
    assert_eq!(e, DecodeError::BadEncoding);
    let e = decode_form("full_name=A%2&email=a%40b.com&message=hi&from_site=s.com").unwrap_err();
    assert_eq!(e, DecodeError::BadEncoding);
    // an escape run that is no valid UTF-8
    let e = decode_form("full_name=%FF&email=a%40b.com&message=hi&from_site=s.com").unwrap_err();
    assert_eq!(e, DecodeError::BadEncoding);
    // a lone continuation prefix cut off by a plain character
    let e = decode_form("full_name=%C3x&email=a%40b.com&message=hi&from_site=s.com").unwrap_err();
    assert_eq!(e, DecodeError::BadEncoding);
    assert_eq!(e.message(), "malformed form body encoding");
}

#[test]
fn json_decodes_fields() {
    let sub = decode_json(
        " { \"fullname\" : \"Named\" , \"email\" : \"test@test.com\" , \"subject\" : \"mail\" , \"message\" : \"hi\" , \"site\" : \"site.com\" } ",
    )
    .unwrap();
    assert_eq!(sub.full_name, "Named");
    assert_eq!(sub.email, "test@test.com");
    assert_eq!(sub.subject, "mail");
    assert_eq!(sub.message, "hi");
    assert_eq!(sub.from_site, "site.com");
}

#[test]
fn json_escapes_are_decoded() {
    let sub = decode_json(
        "{\"fullname\":\"A\\nB\",\"email\":\"a@b.com\",\"message\":\"say \\\"hi\\\"\",\"site\":\"s\\\\t.com\"}",
    )
    .unwrap();
    assert_eq!(sub.full_name, "A\nB");
    assert_eq!(sub.message, "say \"hi\"");
    assert_eq!(sub.from_site, "s\\t.com");
}

#[test]
fn json_unicode_escapes_are_decoded() {
    let sub = decode_json(
        "{\"fullname\":\"\\u0041B\\u00e9\",\"email\":\"a@b.com\",\"message\":\"\\u2713 done\",\"site\":\"s\"}",
    )
    .unwrap();
    assert_eq!(sub.full_name, "ABé");
    assert_eq!(sub.message, "✓ done");
}

#[test]
fn json_omitted_subject_defaults() {
    let sub =
        decode_json("{\"fullname\":\"A\",\"email\":\"a@b.com\",\"message\":\"hi\",\"site\":\"s\"}")
            .unwrap();
    assert_eq!(sub.subject, default_subject_line());
}

#[test]
fn json_missing_field_is_named() {
    let e = decode_json("{\"email\":\"a@b.com\",\"message\":\"hi\",\"site\":\"s\"}").unwrap_err();
    assert_eq!(e, DecodeError::MissingField(FieldId::FullName));
    let e = decode_json("{}").unwrap_err();
    assert_eq!(e, DecodeError::MissingField(FieldId::FullName));
}

#[test]
fn json_bad_syntax_is_rejected() {
    let cases = [
        "",
        "null",
        "[]",
        "{\"fullname\":[\"A\"],\"email\":\"a@b.com\",\"message\":\"hi\",\"site\":\"s\"}",
        "{\"fullname\":{},\"email\":\"a@b.com\",\"message\":\"hi\",\"site\":\"s\"}",
        "{\"fullname\":\"A\"",
        "{\"fullname\":\"A\",}",
        "{\"fullname\":\"A\"} trailing",
        "{\"fullname\":\"A\\u12\",\"email\":\"a@b.com\",\"message\":\"hi\",\"site\":\"s\"}",
        "{\"fullname\":\"A\\uD800\",\"email\":\"a@b.com\",\"message\":\"hi\",\"site\":\"s\"}",
        "{\"fullname\":\"A\\x41\",\"email\":\"a@b.com\",\"message\":\"hi\",\"site\":\"s\"}",
    ];
    for body in cases {
        let e = decode_json(body).unwrap_err();
        assert_eq!(e, DecodeError::BadSyntax);
    }
    assert_eq!(DecodeError::BadSyntax.message(), "malformed JSON body");
}

#[test]
fn json_scalar_members_are_skipped() {
    let sub = decode_json(
        "{\"age\":30,\"fullname\":\"A\",\"email\":\"a@b.com\",\"subscribed\":true,\"message\":\"hi\",\"site\":\"s\",\"score\":-1.5e3}",
    )
    .unwrap();
    assert_eq!(sub.full_name, "A");
    assert_eq!(sub.from_site, "s");
    // a required field given a non-string value stays unset
    let e = decode_json("{\"fullname\":1,\"email\":\"a@b.com\",\"message\":\"hi\",\"site\":\"s\"}")
        .unwrap_err();
    assert_eq!(e, DecodeError::MissingField(FieldId::FullName));
}

#[test]
fn unknown_keys_are_ignored() {
    let sub = decode_form(
        "full_name=A&email=a%40b.com&message=hi&from_site=s.com&color=green",
    )
    .unwrap();
    assert_eq!(sub.full_name, "A");
    let sub = decode_json(
        "{\"fullname\":\"A\",\"email\":\"a@b.com\",\"message\":\"hi\",\"site\":\"s\",\"color\":\"green\"}",
    )
    .unwrap();
    assert_eq!(sub.from_site, "s");
}
