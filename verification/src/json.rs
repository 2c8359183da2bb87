//! Decoding of JSON request bodies.
//!
//! The accepted shape is a single JSON object whose members are string
//! keys with string values, the shape a contact form posts.  Escapes
//! `\" \\ \/ \b \f \n \r \t` and `\u` with four hexadecimal digits outside
//! the surrogate range are decoded; any other body is rejected as a syntax
//! error.

use vstd::prelude::*;
use crate::fields::{
    Submission, SubmissionView, DecodeError, pairs_view, required_missing, built_submission,
    build_submission,
};
use crate::form::{is_hex_digit, hex_value};
use crate::text::string_from_chars;

verus! {

/// JSON insignificant whitespace.
pub open spec fn is_ws(c: char) -> bool {
    c == ' ' || c == '\t' || c == '\n' || c == '\r'
}

/// The first index at or after `i` holding no whitespace.
pub open spec fn skip_ws(s: Seq<char>, i: int) -> int
    decreases s.len() - i,
{
    if i < s.len() && is_ws(s[i]) {
        skip_ws(s, i + 1)
    } else {
        i
    }
}

/// `skip_ws` stays between its argument and the length.
pub proof fn lemma_skip_ws_bounds(s: Seq<char>, i: int)
    requires
        0 <= i <= s.len(),
    ensures
        i <= skip_ws(s, i) <= s.len(),
    decreases s.len() - i,
{
    if i < s.len() && is_ws(s[i]) {
        lemma_skip_ws_bounds(s, i + 1);
    }
}

/// The character an escape letter stands for, if it is an accepted escape.
pub open spec fn unescape(c: char) -> Option<char> {
    if c == '"' {
        Some('"')
    } else if c == '\\' {
        Some('\\')
    } else if c == '/' {
        Some('/')
    } else if c == 'b' {
        Some('\u{8}')
    } else if c == 'f' {
        Some('\u{c}')
    } else if c == 'n' {
        Some('\n')
    } else if c == 'r' {
        Some('\r')
    } else if c == 't' {
        Some('\t')
    } else {
        None
    }
}

/// The code of a `\u` escape whose four hexadecimal digits start at `i`.
pub open spec fn u_escape_val(s: Seq<char>, i: int) -> int {
    hex_value(s[i]) * 4096 + hex_value(s[i + 1]) * 256 + hex_value(s[i + 2]) * 16 + hex_value(
        s[i + 3],
    )
}

/// Whether a `\u` escape whose digits start at `i` is well-formed: four
/// hexadecimal digits naming a code outside the surrogate range.
pub open spec fn u_escape_ok(s: Seq<char>, i: int) -> bool {
    i + 4 <= s.len() && is_hex_digit(s[i]) && is_hex_digit(s[i + 1]) && is_hex_digit(s[i + 2])
        && is_hex_digit(s[i + 3]) && !(0xD800 <= u_escape_val(s, i) && u_escape_val(s, i) <= 0xDFFF)
}

/// The index just past the closing quote of a string literal whose content
/// starts at `i`, or `-1` where the literal is unterminated or holds an
/// unsupported escape.
pub open spec fn string_end(s: Seq<char>, i: int) -> int
    decreases s.len() - i,
{
    if i >= s.len() {
        -1
    } else if s[i] == '"' {
        i + 1
    } else if s[i] == '\\' {
        if i + 1 < s.len() && unescape(s[i + 1]) is Some {
            string_end(s, i + 2)
        } else if i + 1 < s.len() && s[i + 1] == 'u' && u_escape_ok(s, i + 2) {
            string_end(s, i + 6)
        } else {
            -1
        }
    } else {
        string_end(s, i + 1)
    }
}

/// The decoded content of a string literal whose content starts at `i`;
/// meaningful where `string_end` is not `-1`.
pub open spec fn string_content(s: Seq<char>, i: int) -> Seq<char>
    decreases s.len() - i,
{
    if i >= s.len() {
        Seq::empty()
    } else if s[i] == '"' {
        Seq::empty()
    } else if s[i] == '\\' {
        if i + 1 < s.len() && unescape(s[i + 1]) is Some {
            seq![unescape(s[i + 1])->Some_0] + string_content(s, i + 2)
        } else if i + 1 < s.len() && s[i + 1] == 'u' && u_escape_ok(s, i + 2) {
            seq![(u_escape_val(s, i + 2) as u32) as char] + string_content(s, i + 6)
        } else {
            Seq::empty()
        }
    } else {
        seq![s[i]] + string_content(s, i + 1)
    }
}

/// A terminated string literal ends past where it starts and within the
/// input.
pub proof fn lemma_string_end_bounds(s: Seq<char>, i: int)
    requires
        0 <= i <= s.len(),
    ensures
        string_end(s, i) == -1 || (i < string_end(s, i) <= s.len()),
    decreases s.len() - i,
{
    if i < s.len() {
        if s[i] == '"' {
        } else if s[i] == '\\' {
            if i + 1 < s.len() && unescape(s[i + 1]) is Some {
                lemma_string_end_bounds(s, i + 2);
            } else if i + 1 < s.len() && s[i + 1] == 'u' && u_escape_ok(s, i + 2) {
                lemma_string_end_bounds(s, i + 6);
            }
        } else {
            lemma_string_end_bounds(s, i + 1);
        }
    }
}

/// Relies on `char::from_u32`: a code outside the surrogate range and
/// within the Unicode range is the code of exactly one character.
#[verifier::external_body]
fn char_from_code(v: u32) -> (r: char)
    requires
        v < 0xD800 || (0xE000 <= v && v <= 0x10FFFF),
    ensures
        r == v as char,
{
    match char::from_u32(v) {
        Some(c) => c,
        None => ' ',
    }
}

/// Whether `c` may stand in a scalar token: a digit, a sign, a decimal
/// point, an exponent letter or a letter of `true`, `false` or `null`.
pub open spec fn is_scalar_char(c: char) -> bool {
    ('0' <= c && c <= '9') || c == '-' || c == '+' || c == '.' || c == 'e' || c == 'E' || c == 't'
        || c == 'r' || c == 'u' || c == 'f' || c == 'a' || c == 'l' || c == 's' || c == 'n'
}

/// The first index at or after `i` past the scalar token there.
pub open spec fn scalar_run_end(s: Seq<char>, i: int) -> int
    decreases s.len() - i,
{
    if i < s.len() && is_scalar_char(s[i]) {
        scalar_run_end(s, i + 1)
    } else {
        i
    }
}

/// A scalar token ends within the input, and past its start where one
/// scalar character stands.
pub proof fn lemma_scalar_run_bounds(s: Seq<char>, i: int)
    requires
        0 <= i <= s.len(),
    ensures
        i <= scalar_run_end(s, i) <= s.len(),
        i < s.len() && is_scalar_char(s[i]) ==> i + 1 <= scalar_run_end(s, i),
    decreases s.len() - i,
{
    if i < s.len() && is_scalar_char(s[i]) {
        lemma_scalar_run_bounds(s, i + 1);
    }
}

/// Parses the members of a non-empty object, starting at the opening quote
/// of a key.  Yields the decoded key/value pairs and the index of the first
/// character after the last member (expected to be the closing brace).
/// A member whose value is a string is recorded; one whose value is a
/// scalar token (a number, `true`, `false` or `null`) is skipped, its
/// internal syntax not checked beyond its alphabet.
pub open spec fn parse_members(s: Seq<char>, i: int) -> Option<(Seq<(Seq<char>, Seq<char>)>, int)>
    decreases s.len() - i,
        when 0 <= i <= s.len()
{
    if i < s.len() && s[i] == '"' {
        let kend = string_end(s, i + 1);
        if kend == -1 {
            None
        } else {
            let key = string_content(s, i + 1);
            let c = skip_ws(s, kend);
            if c < s.len() && s[c] == ':' {
                let vstart = skip_ws(s, c + 1);
                if vstart < s.len() && s[vstart] == '"' {
                    let vend = string_end(s, vstart + 1);
                    if vend == -1 {
                        None
                    } else {
                        let value = string_content(s, vstart + 1);
                        let d = skip_ws(s, vend);
                        if d < s.len() && s[d] == ',' {
                            proof {
                                lemma_string_end_bounds(s, i + 1);
                                lemma_skip_ws_bounds(s, kend);
                                lemma_skip_ws_bounds(s, c + 1);
                                lemma_string_end_bounds(s, vstart + 1);
                                lemma_skip_ws_bounds(s, vend);
                                lemma_skip_ws_bounds(s, d + 1);
                            }
                            match parse_members(s, skip_ws(s, d + 1)) {
                                Some(r) => Some((seq![(key, value)] + r.0, r.1)),
                                None => None,
                            }
                        } else {
                            Some((seq![(key, value)], d))
                        }
                    }
                } else if vstart < s.len() && is_scalar_char(s[vstart]) {
                    let vend = scalar_run_end(s, vstart);
                    let d = skip_ws(s, vend);
                    if d < s.len() && s[d] == ',' {
                        proof {
                            lemma_string_end_bounds(s, i + 1);
                            lemma_skip_ws_bounds(s, kend);
                            lemma_skip_ws_bounds(s, c + 1);
                            lemma_scalar_run_bounds(s, vstart);
                            lemma_skip_ws_bounds(s, vend);
                            lemma_skip_ws_bounds(s, d + 1);
                        }
                        parse_members(s, skip_ws(s, d + 1))
                    } else {
                        Some((Seq::<(Seq<char>, Seq<char>)>::empty(), d))
                    }
                } else {
                    None
                }
            } else {
                None
            }
        }
    } else {
        None
    }
}

/// The key/value pairs of a JSON body: a single object of string members,
/// with nothing but whitespace around it.
pub open spec fn json_pairs(s: Seq<char>) -> Option<Seq<(Seq<char>, Seq<char>)>> {
    let i = skip_ws(s, 0);
    if i < s.len() && s[i] == '{' {
        let j = skip_ws(s, i + 1);
        if j < s.len() && s[j] == '}' {
            if skip_ws(s, j + 1) == s.len() {
                Some(Seq::empty())
            } else {
                None
            }
        } else {
            match parse_members(s, j) {
                Some(r) => if r.1 < s.len() && s[r.1] == '}' && skip_ws(s, r.1 + 1) == s.len() {
                    Some(r.0)
                } else {
                    None
                },
                None => None,
            }
        }
    } else {
        None
    }
}

/// What decoding a JSON body yields: the submission that its members
/// denote, or the error that stops it.
pub open spec fn spec_decode_json(s: Seq<char>) -> Result<SubmissionView, DecodeError> {
    match json_pairs(s) {
        None => Err(DecodeError::BadSyntax),
        Some(ps) => match required_missing(ps) {
            Some(f) => Err(DecodeError::MissingField(f)),
            None => Ok(built_submission(ps)),
        },
    }
}

/// Whitespace test on one character.
fn is_ws_exec(c: char) -> (r: bool)
    ensures
        r == is_ws(c),
{
    c == ' ' || c == '\t' || c == '\n' || c == '\r'
}

/// Advances an index past whitespace.
fn skip_ws_exec(v: &[char], start: usize) -> (r: usize)
    requires
        start <= v@.len(),
    ensures
        r as int == skip_ws(v@, start as int),
        start <= r <= v@.len(),
        r < v@.len() ==> !is_ws(v@[r as int]),
{
    let n = v.len();
    let mut i = start;
    while i < n && is_ws_exec(v[i])
        invariant
            start <= i <= n,
            n == v@.len(),
            skip_ws(v@, start as int) == skip_ws(v@, i as int),
        decreases n - i,
    {
        i = i + 1;
    }
    i
}

/// Scalar-token membership of one character.
fn is_scalar_char_exec(c: char) -> (r: bool)
    ensures
        r == is_scalar_char(c),
{
    ('0' <= c && c <= '9') || c == '-' || c == '+' || c == '.' || c == 'e' || c == 'E' || c == 't'
        || c == 'r' || c == 'u' || c == 'f' || c == 'a' || c == 'l' || c == 's' || c == 'n'
}

/// Advances an index past a scalar token.
fn scalar_run_end_exec(v: &[char], start: usize) -> (r: usize)
    requires
        start <= v@.len(),
    ensures
        r as int == scalar_run_end(v@, start as int),
        start <= r <= v@.len(),
{
    let n = v.len();
    let mut i = start;
    while i < n && is_scalar_char_exec(v[i])
        invariant
            start <= i <= n,
            n == v@.len(),
            scalar_run_end(v@, start as int) == scalar_run_end(v@, i as int),
        decreases n - i,
    {
        i = i + 1;
    }
    i
}

/// The escape decoding of one letter.
fn unescape_exec(c: char) -> (r: Option<char>)
    ensures
        r == unescape(c),
{
    if c == '"' {
        Some('"')
    } else if c == '\\' {
        Some('\\')
    } else if c == '/' {
        Some('/')
    } else if c == 'b' {
        Some('\u{8}')
    } else if c == 'f' {
        Some('\u{c}')
    } else if c == 'n' {
        Some('\n')
    } else if c == 'r' {
        Some('\r')
    } else if c == 't' {
        Some('\t')
    } else {
        None
    }
}

/// One scan step appends one character to the decoded content.
proof fn lemma_scan_step(out0: Seq<char>, c: char, out1: Seq<char>, rest: Seq<char>)
    requires
        out1 == out0.push(c),
    ensures
        out0 + (seq![c] + rest) == out1 + rest,
{
    assert(out0 + (seq![c] + rest) =~= out1 + rest);
}

/// Scans a string literal from the character after its opening quote.
fn scan_string(v: &[char], start: usize) -> (r: Option<(Vec<char>, usize)>)
    requires
        start <= v@.len(),
    ensures
        match r {
            Some(p) => p.1 as int == string_end(v@, start as int) && start < p.1 <= v@.len()
                && p.0@ == string_content(v@, start as int),
            None => string_end(v@, start as int) == -1,
        },
{
    let n = v.len();
    let mut i = start;
    let mut out: Vec<char> = Vec::new();
    proof {
        assert(out@ + string_content(v@, start as int) =~= string_content(v@, start as int));
    }
    while i < n
        invariant
            start <= i <= n,
            n == v@.len(),
            string_end(v@, start as int) == string_end(v@, i as int),
            string_content(v@, start as int) == out@ + string_content(v@, i as int),
        decreases n - i,
    {
        let c = v[i];
        let ghost out0 = out@;
        if c == '"' {
            return Some((out, i + 1));
        } else if c == '\\' {
            if n - i < 2 {
                return None;
            }
            match unescape_exec(v[i + 1]) {
                Some(u) => {
                    out.push(u);
                    i = i + 2;
                    proof {
                        lemma_scan_step(out0, u, out@, string_content(v@, i as int));
                    }
                },
                None => {
                    if !(v[i + 1] == 'u' && n - i >= 6) {
                        return None;
                    }
                    let h1 = crate::form::hex_digit_value(v[i + 2]);
                    let h2 = crate::form::hex_digit_value(v[i + 3]);
                    let h3 = crate::form::hex_digit_value(v[i + 4]);
                    let h4 = crate::form::hex_digit_value(v[i + 5]);
                    match (h1, h2, h3, h4) {
                        (Some(d1), Some(d2), Some(d3), Some(d4)) => {
                            let code: u32 = (d1 as u32) * 4096 + (d2 as u32) * 256 + (d3 as u32)
                                * 16 + (d4 as u32);
                            if 0xD800 <= code && code <= 0xDFFF {
                                return None;
                            }
                            let u = char_from_code(code);
                            out.push(u);
                            i = i + 6;
                            proof {
                                lemma_scan_step(out0, u, out@, string_content(v@, i as int));
                            }
                        },
                        _ => {
                            return None;
                        },
                    }
                },
            }
        } else {
            out.push(c);
            i = i + 1;
            proof {
                lemma_scan_step(out0, c, out@, string_content(v@, i as int));
            }
        }
    }
    None
}

/// Decodes a JSON body into a submission.
///
/// The result is exactly what [`spec_decode_json`] states: the submission
/// denoted by the object's members, or the syntax or missing-field error.
pub fn decode_json(body: &str) -> (r: Result<Submission, DecodeError>)
    ensures
        match r {
            Ok(s) => spec_decode_json(body@) matches Ok(v) && s@ == v,
            Err(e) => spec_decode_json(body@) == Err::<SubmissionView, DecodeError>(e),
        },
{
    let v = crate::text::chars_of(body);
    let n = v.len();
    let i = skip_ws_exec(v.as_slice(), 0);
    if !(i < n && v[i] == '{') {
        return Err(DecodeError::BadSyntax);
    }
    let j = skip_ws_exec(v.as_slice(), i + 1);
    if j < n && v[j] == '}' {
        let t = skip_ws_exec(v.as_slice(), j + 1);
        if t != n {
            return Err(DecodeError::BadSyntax);
        }
        proof {
            assert(json_pairs(body@) == Some(Seq::<(Seq<char>, Seq<char>)>::empty()));
            assert(pairs_view(Seq::<(String, String)>::empty()) =~= Seq::<(
                Seq<char>,
                Seq<char>,
            )>::empty());
        }
        return build_submission(Vec::new());
    }
    let ghost p0 = j as int;
    let mut pairs: Vec<(String, String)> = Vec::new();
    let mut p = j;
    proof {
        assert(pairs_view(pairs@) =~= Seq::<(Seq<char>, Seq<char>)>::empty());
        match parse_members(body@, p as int) {
            Some(r) => {
                assert(pairs_view(pairs@) + r.0 =~= r.0);
            },
            None => {},
        }
    }
    loop
        invariant
            p0 <= p <= n,
            n == v@.len(),
            v@ == body@,
            parse_members(body@, p0) == match parse_members(body@, p as int) {
                Some(r) => Some((pairs_view(pairs@) + r.0, r.1)),
                None => None::<(Seq<(Seq<char>, Seq<char>)>, int)>,
            },
            json_pairs(body@) == match parse_members(body@, p0) {
                Some(r) => if r.1 < body@.len() && body@[r.1] == '}' && skip_ws(body@, r.1 + 1)
                    == body@.len() {
                    Some(r.0)
                } else {
                    None::<Seq<(Seq<char>, Seq<char>)>>
                },
                None => None::<Seq<(Seq<char>, Seq<char>)>>,
            },
        decreases n - p,
    {
        if !(p < n && v[p] == '"') {
            return Err(DecodeError::BadSyntax);
        }
        let (kchars, kend) = match scan_string(v.as_slice(), p + 1) {
            Some(x) => x,
            None => {
                return Err(DecodeError::BadSyntax);
            },
        };
        let c = skip_ws_exec(v.as_slice(), kend);
        if !(c < n && v[c] == ':') {
            return Err(DecodeError::BadSyntax);
        }
        let vstart = skip_ws_exec(v.as_slice(), c + 1);
        if vstart < n && v[vstart] == '"' {
            let (vchars, vend) = match scan_string(v.as_slice(), vstart + 1) {
                Some(x) => x,
                None => {
                    return Err(DecodeError::BadSyntax);
                },
            };
            let d = skip_ws_exec(v.as_slice(), vend);
            let ghost pairs0 = pairs@;
            let ghost key = string_content(body@, p + 1);
            let ghost value = string_content(body@, vstart + 1);
            pairs.push((string_from_chars(&kchars), string_from_chars(&vchars)));
            proof {
                assert(pairs_view(pairs@) =~= pairs_view(pairs0).push((key, value)));
            }
            if d < n && v[d] == ',' {
                let pnext = skip_ws_exec(v.as_slice(), d + 1);
                proof {
                    match parse_members(body@, pnext as int) {
                        Some(r) => {
                            assert(pairs_view(pairs0) + (seq![(key, value)] + r.0) =~= pairs_view(
                                pairs@,
                            ) + r.0);
                        },
                        None => {},
                    }
                }
                p = pnext;
            } else {
                proof {
                    assert(parse_members(body@, p as int) == Some((seq![(key, value)], d as int)));
                    assert(pairs_view(pairs0) + seq![(key, value)] =~= pairs_view(pairs@));
                }
                if d < n && v[d] == '}' {
                    let t = skip_ws_exec(v.as_slice(), d + 1);
                    if t == n {
                        proof {
                            assert(json_pairs(body@) == Some(pairs_view(pairs@)));
                        }
                        return build_submission(pairs);
                    } else {
                        return Err(DecodeError::BadSyntax);
                    }
                } else {
                    return Err(DecodeError::BadSyntax);
                }
            }
        } else if vstart < n && is_scalar_char_exec(v[vstart]) {
            let vend = scalar_run_end_exec(v.as_slice(), vstart);
            let d = skip_ws_exec(v.as_slice(), vend);
            if d < n && v[d] == ',' {
                let pnext = skip_ws_exec(v.as_slice(), d + 1);
                p = pnext;
            } else {
                proof {
                    assert(parse_members(body@, p as int) == Some((
                        Seq::<(Seq<char>, Seq<char>)>::empty(),
                        d as int,
                    )));
                    assert(pairs_view(pairs@) + Seq::<(Seq<char>, Seq<char>)>::empty()
                        =~= pairs_view(pairs@));
                }
                if d < n && v[d] == '}' {
                    let t = skip_ws_exec(v.as_slice(), d + 1);
                    if t == n {
                        proof {
                            assert(json_pairs(body@) == Some(pairs_view(pairs@)));
                        }
                        return build_submission(pairs);
                    } else {
                        return Err(DecodeError::BadSyntax);
                    }
                } else {
                    return Err(DecodeError::BadSyntax);
                }
            }
        } else {
            return Err(DecodeError::BadSyntax);
        }
    }
}

} // verus!
