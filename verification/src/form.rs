//! Decoding of `application/x-www-form-urlencoded` request bodies.
//!
//! The body is split on `&` into segments, each segment on its first `=`
//! into a key and a value, and key and value are percent-decoded: `+`
//! stands for a space, and a run of `%XX` escapes for the characters whose
//! UTF-8 encoding those bytes are.  A `%` without two hexadecimal digits,
//! and a run of escape bytes that is no valid UTF-8, are rejected.

use vstd::prelude::*;
use vstd::slice::slice_subrange;
use vstd::utf8::{valid_utf8, decode_utf8};
use crate::fields::{
    Submission, SubmissionView, DecodeError, pairs_view, required_missing, built_submission,
    build_submission,
};
use crate::text::{string_from_chars, utf8_to_string, chars_of};

verus! {

/// Whether `c` is an ASCII hexadecimal digit.
pub open spec fn is_hex_digit(c: char) -> bool {
    (48 <= c as u32 && c as u32 <= 57) || (97 <= c as u32 && c as u32 <= 102) || (65 <= c as u32
        && c as u32 <= 70)
}

/// The numeric value of an ASCII hexadecimal digit.
pub open spec fn hex_value(c: char) -> int {
    if 48 <= c as u32 && c as u32 <= 57 {
        c as u32 - 48
    } else if 97 <= c as u32 && c as u32 <= 102 {
        c as u32 - 87
    } else {
        c as u32 - 55
    }
}

/// One maximal run of percent escapes starting at `i`: the bytes it
/// encodes and the index after the run.  `None` where a `%` is not
/// followed by two hexadecimal digits.
pub open spec fn escape_run(s: Seq<char>, i: int) -> Option<(Seq<u8>, int)>
    decreases s.len() - i,
{
    if i < s.len() && s[i] == '%' {
        if i + 3 <= s.len() && is_hex_digit(s[i + 1]) && is_hex_digit(s[i + 2]) {
            match escape_run(s, i + 3) {
                Some(r) => Some(
                    (seq![(hex_value(s[i + 1]) * 16 + hex_value(s[i + 2])) as u8] + r.0, r.1),
                ),
                None => None,
            }
        } else {
            None
        }
    } else {
        Some((Seq::<u8>::empty(), i))
    }
}

/// An escape run ends within the input, and past its start where one
/// escape stands.
pub proof fn lemma_escape_run_bounds(s: Seq<char>, i: int)
    requires
        0 <= i <= s.len(),
    ensures
        match escape_run(s, i) {
            Some(r) => i <= r.1 <= s.len() && (i < s.len() && s[i] == '%' ==> i + 3 <= r.1),
            None => true,
        },
    decreases s.len() - i,
{
    if i < s.len() && s[i] == '%' && i + 3 <= s.len() && is_hex_digit(s[i + 1]) && is_hex_digit(
        s[i + 2],
    ) {
        lemma_escape_run_bounds(s, i + 3);
    }
}

/// Percent-decoding of a form token from index `i` on: `+` becomes a
/// space, a run of `%XX` escapes becomes the characters its bytes encode
/// in UTF-8, and every other character stands for itself.
pub open spec fn pct_decode_from(s: Seq<char>, i: int) -> Option<Seq<char>>
    decreases s.len() - i,
        when 0 <= i <= s.len()
{
    if i >= s.len() {
        Some(Seq::<char>::empty())
    } else if s[i] == '+' {
        match pct_decode_from(s, i + 1) {
            Some(r) => Some(seq![' '] + r),
            None => None,
        }
    } else if s[i] == '%' {
        match escape_run(s, i) {
            Some(run) => if valid_utf8(run.0) {
                proof {
                    lemma_escape_run_bounds(s, i);
                }
                match pct_decode_from(s, run.1) {
                    Some(r) => Some(decode_utf8(run.0) + r),
                    None => None,
                }
            } else {
                None
            },
            None => None,
        }
    } else {
        match pct_decode_from(s, i + 1) {
            Some(r) => Some(seq![s[i]] + r),
            None => None,
        }
    }
}

/// Percent-decoding of one whole form token.
pub open spec fn percent_decode(s: Seq<char>) -> Option<Seq<char>> {
    pct_decode_from(s, 0)
}

/// Splitting a sequence on a separator; the result always has one more
/// element than the separator occurs.
pub open spec fn split_on(s: Seq<char>, sep: char) -> Seq<Seq<char>>
    decreases s.len(),
{
    if s.len() == 0 {
        seq![Seq::<char>::empty()]
    } else if s[0] == sep {
        seq![Seq::<char>::empty()] + split_on(s.skip(1), sep)
    } else {
        let rest = split_on(s.skip(1), sep);
        seq![seq![s[0]] + rest[0]] + rest.skip(1)
    }
}

/// `split_on` never yields an empty list.
pub proof fn lemma_split_on_nonempty(s: Seq<char>, sep: char)
    ensures
        split_on(s, sep).len() >= 1,
    decreases s.len(),
{
    if s.len() != 0 && s[0] != sep {
        lemma_split_on_nonempty(s.skip(1), sep);
    }
}

/// Splitting one segment at its first `=`: the part before it is the key,
/// the part after it the value; a segment without `=` is all key.
pub open spec fn split_pair(seg: Seq<char>) -> (Seq<char>, Seq<char>)
    decreases seg.len(),
{
    if seg.len() == 0 {
        (Seq::<char>::empty(), Seq::<char>::empty())
    } else if seg[0] == '=' {
        (Seq::<char>::empty(), seg.skip(1))
    } else {
        let r = split_pair(seg.skip(1));
        (seq![seg[0]] + r.0, r.1)
    }
}

/// `split_pair` at the first occurrence of `=`, stated over an index.
pub proof fn lemma_split_pair_at(seg: Seq<char>, i: int)
    requires
        0 <= i <= seg.len(),
        forall|j: int| 0 <= j < i ==> seg[j] != '=',
        i < seg.len() ==> seg[i] == '=',
    ensures
        i < seg.len() ==> split_pair(seg) == (seg.take(i), seg.skip(i + 1)),
        i == seg.len() ==> split_pair(seg) == (seg, Seq::<char>::empty()),
    decreases seg.len(),
{
    if seg.len() == 0 {
        assert(split_pair(seg) == (seg, Seq::<char>::empty()));
    } else if i == 0 {
        if i < seg.len() {
            assert(seg.take(0) =~= Seq::<char>::empty());
        }
    } else {
        lemma_split_pair_at(seg.skip(1), i - 1);
        assert(seg.take(i) =~= seq![seg[0]] + seg.skip(1).take(i - 1));
        if i < seg.len() {
            assert(seg.skip(1).skip(i) =~= seg.skip(i + 1));
        } else {
            assert(seq![seg[0]] + seg.skip(1) =~= seg);
        }
    }
}

/// The decoded key/value pairs of a form body, or `None` where a key or a
/// value holds a bad escape.
pub open spec fn form_pairs(s: Seq<char>) -> Option<Seq<(Seq<char>, Seq<char>)>> {
    let segs = split_on(s, '&');
    if forall|j: int|
        0 <= j < segs.len() ==> percent_decode(split_pair(#[trigger] segs[j]).0) is Some
            && percent_decode(split_pair(segs[j]).1) is Some {
        Some(
            Seq::new(
                segs.len(),
                |j: int|
                    (
                        percent_decode(split_pair(segs[j]).0)->Some_0,
                        percent_decode(split_pair(segs[j]).1)->Some_0,
                    ),
            ),
        )
    } else {
        None
    }
}

/// What decoding a form body yields: the submission that its pairs denote,
/// or the error that stops it.
pub open spec fn spec_decode_form(s: Seq<char>) -> Result<SubmissionView, DecodeError> {
    match form_pairs(s) {
        None => Err(DecodeError::BadEncoding),
        Some(ps) => match required_missing(ps) {
            Some(f) => Err(DecodeError::MissingField(f)),
            None => Ok(built_submission(ps)),
        },
    }
}

/// Pushing one element and gluing the rest is one concatenation.
proof fn lemma_push_concat<T>(a: Seq<T>, x: T, b: Seq<T>)
    ensures
        a + (seq![x] + b) == a.push(x) + b,
{
    assert(a + (seq![x] + b) =~= a.push(x) + b);
}

/// Concatenation is associative.
proof fn lemma_concat_assoc<T>(a: Seq<T>, m: Seq<T>, b: Seq<T>)
    ensures
        a + (m + b) == (a + m) + b,
{
    assert(a + (m + b) =~= (a + m) + b);
}

/// Percent-decodes one token.
fn pct_decode(seg: &[char]) -> (r: Option<Vec<char>>)
    ensures
        match r {
            Some(v) => percent_decode(seg@) == Some(v@),
            None => percent_decode(seg@) is None,
        },
{
    let n = seg.len();
    let mut out: Vec<char> = Vec::new();
    let mut i: usize = 0;
    proof {
        match pct_decode_from(seg@, 0) {
            Some(r) => {
                assert(out@ + r =~= r);
            },
            None => {},
        }
    }
    while i < n
        invariant
            i <= n,
            n == seg@.len(),
            percent_decode(seg@) == match pct_decode_from(seg@, i as int) {
                Some(r) => Some(out@ + r),
                None => None::<Seq<char>>,
            },
        decreases n - i,
    {
        let c = seg[i];
        let ghost out0 = out@;
        if c == '+' {
            out.push(' ');
            i = i + 1;
            proof {
                match pct_decode_from(seg@, i as int) {
                    Some(r) => {
                        lemma_push_concat(out0, ' ', r);
                    },
                    None => {},
                }
            }
        } else if c == '%' {
            let mut bytes: Vec<u8> = Vec::new();
            let mut j = i;
            proof {
                match escape_run(seg@, i as int) {
                    Some(r) => {
                        assert(bytes@ + r.0 =~= r.0);
                    },
                    None => {},
                }
            }
            while j < n && seg[j] == '%'
                invariant
                    i <= j <= n,
                    i < n,
                    n == seg@.len(),
                    seg@[i as int] == '%',
                    percent_decode(seg@) == match pct_decode_from(seg@, i as int) {
                        Some(r) => Some(out@ + r),
                        None => None::<Seq<char>>,
                    },
                    escape_run(seg@, i as int) == match escape_run(seg@, j as int) {
                        Some(r) => Some((bytes@ + r.0, r.1)),
                        None => None::<(Seq<u8>, int)>,
                    },
                decreases n - j,
            {
                if n - j < 3 {
                    return None;
                }
                let h1 = hex_digit_value(seg[j + 1]);
                let h2 = hex_digit_value(seg[j + 2]);
                match (h1, h2) {
                    (Some(v1), Some(v2)) => {
                        let b: u8 = v1 * 16 + v2;
                        let ghost bytes0 = bytes@;
                        bytes.push(b);
                        j = j + 3;
                        proof {
                            match escape_run(seg@, j as int) {
                                Some(r) => {
                                    lemma_push_concat(bytes0, b, r.0);
                                },
                                None => {},
                            }
                        }
                    },
                    _ => {
                        return None;
                    },
                }
            }
            proof {
                assert(escape_run(seg@, j as int) == Some((Seq::<u8>::empty(), j as int)));
                assert(bytes@ + Seq::<u8>::empty() =~= bytes@);
                assert(escape_run(seg@, i as int) == Some((bytes@, j as int)));
            }
            let ghost run_bytes = bytes@;
            let mut decoded = match utf8_to_string(bytes) {
                Some(stext) => chars_of(stext.as_str()),
                None => {
                    return None;
                },
            };
            out.append(&mut decoded);
            i = j;
            proof {
                match pct_decode_from(seg@, i as int) {
                    Some(r) => {
                        lemma_concat_assoc(out0, decode_utf8(run_bytes), r);
                    },
                    None => {},
                }
            }
        } else {
            out.push(c);
            i = i + 1;
            proof {
                match pct_decode_from(seg@, i as int) {
                    Some(r) => {
                        lemma_push_concat(out0, c, r);
                    },
                    None => {},
                }
            }
        }
    }
    proof {
        assert(out@ + Seq::<char>::empty() =~= out@);
    }
    Some(out)
}

/// The numeric value of an ASCII hexadecimal digit character.
pub(crate) fn hex_digit_value(c: char) -> (r: Option<u8>)
    ensures
        match r {
            Some(v) => is_hex_digit(c) && v == hex_value(c) && v < 16,
            None => !is_hex_digit(c),
        },
{
    let u = c as u32;
    if 48 <= u && u <= 57 {
        Some((u - 48) as u8)
    } else if 97 <= u && u <= 102 {
        Some((u - 87) as u8)
    } else if 65 <= u && u <= 70 {
        Some((u - 55) as u8)
    } else {
        None
    }
}

/// Splits the body characters on `&`.
fn split_segments(v: &[char]) -> (r: Vec<Vec<char>>)
    ensures
        r@.map_values(|x: Vec<char>| x@) == split_on(v@, '&'),
{
    let n = v.len();
    let mut done: Vec<Vec<char>> = Vec::new();
    let mut cur: Vec<char> = Vec::new();
    let mut i: usize = 0;
    proof {
        assert(v@.skip(0) =~= v@);
        lemma_split_on_nonempty(v@, '&');
        let ss = split_on(v@, '&');
        assert(Seq::<char>::empty() + ss[0] =~= ss[0]);
        assert(done@.map_values(|x: Vec<char>| x@) + prepend_first(cur@, ss) =~= ss);
    }
    while i < n
        invariant
            i <= n,
            n == v@.len(),
            split_on(v@, '&') == done@.map_values(|x: Vec<char>| x@) + prepend_first(
                cur@,
                split_on(v@.skip(i as int), '&'),
            ),
        decreases n - i,
    {
        let c = v[i];
        let ghost done0 = done@;
        let ghost cur0 = cur@;
        proof {
            assert(v@.skip(i as int)[0] == c);
            assert(v@.skip(i as int).skip(1) =~= v@.skip(i + 1));
            lemma_split_on_nonempty(v@.skip(i + 1), '&');
        }
        if c == '&' {
            done.push(cur);
            cur = Vec::new();
            proof {
                let ss = split_on(v@.skip(i + 1), '&');
                assert(done@.map_values(|x: Vec<char>| x@) =~= done0.map_values(
                    |x: Vec<char>| x@,
                ).push(cur0));
                // the segment that ends here
                assert(cur0 + (seq![Seq::<char>::empty()] + ss)[0] =~= cur0);
                assert(prepend_first(cur0, seq![Seq::<char>::empty()] + ss) =~= seq![cur0] + ss);
                // the empty segment that begins here
                assert(Seq::<char>::empty() + ss[0] =~= ss[0]);
                assert(prepend_first(Seq::<char>::empty(), ss) =~= ss);
                assert(done@.map_values(|x: Vec<char>| x@) + prepend_first(cur@, ss)
                    =~= done0.map_values(|x: Vec<char>| x@) + (seq![cur0] + ss));
            }
        } else {
            cur.push(c);
            proof {
                let ss = split_on(v@.skip(i + 1), '&');
                assert(cur@ =~= cur0.push(c));
                assert(seq![c] + ss[0] =~= (prepend_first(seq![c], ss))[0]);
                assert(cur0 + (seq![c] + ss[0]) =~= cur@ + ss[0]);
                assert(prepend_first(seq![c], ss).skip(1) =~= ss.skip(1));
                assert(prepend_first(cur0, prepend_first(seq![c], ss)) =~= prepend_first(
                    cur@,
                    ss,
                ));
            }
        }
        i = i + 1;
    }
    proof {
        assert(v@.skip(n as int) =~= Seq::<char>::empty());
        assert(cur@ + seq![Seq::<char>::empty()][0] =~= cur@);
        assert(prepend_first(cur@, seq![Seq::<char>::empty()]) =~= seq![cur@]);
    }
    let ghost done1 = done@;
    let ghost cur1 = cur@;
    done.push(cur);
    proof {
        assert(done@.map_values(|x: Vec<char>| x@) =~= done1.map_values(|x: Vec<char>| x@).push(
            cur1,
        ));
        assert(done1.map_values(|x: Vec<char>| x@).push(cur1) =~= done1.map_values(
            |x: Vec<char>| x@,
        ) + seq![cur1]);
    }
    done
}

/// Glues a partial segment onto the first element of a split.
pub open spec fn prepend_first(p: Seq<char>, ss: Seq<Seq<char>>) -> Seq<Seq<char>> {
    seq![p + ss[0]] + ss.skip(1)
}

/// Splits one segment at its first `=`.
fn split_segment(seg: &[char]) -> (r: (Vec<char>, Vec<char>))
    ensures
        (r.0@, r.1@) == split_pair(seg@),
{
    let n = seg.len();
    let mut i: usize = 0;
    while i < n
        invariant
            i <= n,
            n == seg@.len(),
            forall|j: int| 0 <= j < i ==> seg@[j] != '=',
        decreases n - i,
    {
        if seg[i] == '=' {
            proof {
                lemma_split_pair_at(seg@, i as int);
            }
            let key = slice_subrange(seg, 0, i);
            let value = slice_subrange(seg, i + 1, n);
            proof {
                assert(key@ =~= seg@.take(i as int));
            }
            return (crate::text::slice_to_vec(key), crate::text::slice_to_vec(value));
        }
        i = i + 1;
    }
    proof {
        lemma_split_pair_at(seg@, n as int);
    }
    (crate::text::slice_to_vec(seg), Vec::new())
}

/// Decodes a form-urlencoded body into a submission.
///
/// The result is exactly what [`spec_decode_form`] states: the submission
/// denoted by the decoded pairs, or the bad-escape or missing-field error.
pub fn decode_form(body: &str) -> (r: Result<Submission, DecodeError>)
    ensures
        match r {
            Ok(s) => spec_decode_form(body@) matches Ok(v) && s@ == v,
            Err(e) => spec_decode_form(body@) == Err::<SubmissionView, DecodeError>(e),
        },
{
    let v = crate::text::chars_of(body);
    let segs = split_segments(v.as_slice());
    let ghost segviews = segs@.map_values(|x: Vec<char>| x@);
    let mut pairs: Vec<(String, String)> = Vec::new();
    let n = segs.len();
    let mut i: usize = 0;
    while i < n
        invariant
            i <= n,
            n == segs@.len(),
            segviews == segs@.map_values(|x: Vec<char>| x@),
            segviews == split_on(body@, '&'),
            pairs@.len() == i,
            forall|j: int|
                0 <= j < i ==> percent_decode(split_pair(#[trigger] segviews[j]).0) is Some
                    && percent_decode(split_pair(segviews[j]).1) is Some,
            forall|j: int|
                0 <= j < i ==> (#[trigger] pairs@[j].0@) == percent_decode(
                    split_pair(segviews[j]).0,
                )->Some_0 && pairs@[j].1@ == percent_decode(split_pair(segviews[j]).1)->Some_0,
        decreases n - i,
    {
        let (key, value) = split_segment(segs[i].as_slice());
        proof {
            assert(segviews[i as int] == segs@[i as int]@);
            assert((key@, value@) == split_pair(segviews[i as int]));
        }
        let dk = match pct_decode(key.as_slice()) {
            Some(k) => k,
            None => {
                proof {
                    assert(percent_decode(split_pair(segviews[i as int]).0) is None);
                    assert(form_pairs(body@) is None);
                }
                return Err(DecodeError::BadEncoding);
            },
        };
        let dv = match pct_decode(value.as_slice()) {
            Some(x) => x,
            None => {
                proof {
                    assert(percent_decode(split_pair(segviews[i as int]).1) is None);
                    assert(form_pairs(body@) is None);
                }
                return Err(DecodeError::BadEncoding);
            },
        };
        pairs.push((string_from_chars(&dk), string_from_chars(&dv)));
        i = i + 1;
    }
    proof {
        assert(form_pairs(body@) is Some);
        let ps = form_pairs(body@)->Some_0;
        assert(pairs_view(pairs@) =~= ps);
    }
    build_submission(pairs)
}

} // verus!
