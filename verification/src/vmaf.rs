//! The quality score in a scorer's report: the text after `VMAF score:`,
//! found by a regular expression and checked to be a decimal number.

use crate::scan::text_view;
use vstd::prelude::*;
use vstd::string::{is_ascii_spec_bytes, StringExecFnsIsAscii};
use vstd::utf8::is_ascii_chars;

verus! {

/// The expression that finds the score in a report.
pub const SCORE_PATTERN: &'static str = r"VMAF score:\s+([\d|.]+)";

/// Why a report gives no score.
#[derive(PartialEq, Eq, Debug, Copy, Clone, Structural)]
pub enum VmafError {
    /// The report holds no score line.
    NoScore,
    /// The text after the score line's label is no decimal number.
    MalformedScore,
}

/// What the first group of the leftmost match of `pattern` in `text`
/// holds; `None` where `pattern` is no regular expression, where it matches
/// nowhere, and where the group took no part in the match.
pub uninterp spec fn first_group(pattern: Seq<char>, text: Seq<char>) -> Option<Seq<char>>;

/// Compiles `pattern` with `regex::Regex::new`, searches `text` with
/// `Regex::captures` and copies out the first group with `Captures::get`
/// and `Match::as_str`. The result is what these give for the two texts,
/// which is all that is claimed of it.
#[verifier::external_body]
fn find_first_group(pattern: &str, text: &str) -> (group: Option<String>)
    ensures
        text_view(group) == first_group(pattern@, text@),
{
    match regex::Regex::new(pattern) {
        Ok(re) => re.captures(text).and_then(|found| found.get(1)).map(
            |group| group.as_str().to_string(),
        ),
        Err(_) => None,
    }
}

/// Whether `c` is an ASCII decimal digit.
pub open spec fn is_digit_char(c: char) -> bool {
    '0' <= c <= '9'
}

/// Whether `c` is a full stop.
pub open spec fn is_point(c: char) -> bool {
    c == '.'
}

/// Whether `c` may stand in a decimal number.
pub open spec fn is_decimal_char(c: char) -> bool {
    is_digit_char(c) || is_point(c)
}

/// Whether `s` writes a decimal number without sign or exponent: digits
/// with at most one point among them, and at least one digit.
pub open spec fn is_decimal_text(s: Seq<char>) -> bool {
    &&& forall|i: int| 0 <= i < s.len() ==> is_decimal_char(#[trigger] s[i])
    &&& forall|i: int, j: int|
        0 <= i < s.len() && 0 <= j < s.len() && is_point(#[trigger] s[i]) && is_point(
            #[trigger] s[j],
        ) ==> i == j
    &&& exists|i: int| 0 <= i < s.len() && is_digit_char(#[trigger] s[i])
}

/// The score text of a report, given what the score pattern found in it.
pub open spec fn score_of(found: Option<Seq<char>>) -> Result<Seq<char>, VmafError> {
    match found {
        None => Err(VmafError::NoScore),
        Some(text) => if is_decimal_text(text) {
            Ok(text)
        } else {
            Err(VmafError::MalformedScore)
        },
    }
}

/// Whether `text` writes a decimal number without sign or exponent.
pub fn is_decimal(text: &str) -> (yes: bool)
    ensures
        yes == is_decimal_text(text@),
{
    if !text.is_ascii() {
        proof {
            if is_decimal_text(text@) {
                assert forall|i: int| 0 <= i < text@.len() implies '\0' <= #[trigger] text@[i]
                    <= '\u{7f}' by {
                    assert(is_decimal_char(text@[i]));
                }
                assert(is_ascii_chars(text@));
            }
        }
        return false;
    }
    let bytes = text.as_bytes();
    proof {
        is_ascii_spec_bytes(text);
    }
    let mut points: usize = 0;
    let mut digits: bool = false;
    let mut i: usize = 0;
    while i < bytes.len()
        invariant
            i <= bytes@.len(),
            bytes@.len() == text@.len(),
            forall|k: int| 0 <= k < bytes@.len() ==> bytes@[k] == (#[trigger] text@[k]) as u8,
            is_ascii_chars(text@),
            forall|k: int| 0 <= k < i ==> is_decimal_char(#[trigger] text@[k]),
            points <= 1,
            points == 0 ==> forall|k: int| 0 <= k < i ==> !is_point(#[trigger] text@[k]),
            points == 1 ==> exists|p: int|
                0 <= p < i && is_point(#[trigger] text@[p]) && forall|k: int|
                    0 <= k < i && is_point(#[trigger] text@[k]) ==> k == p,
            digits <==> exists|k: int| 0 <= k < i && is_digit_char(#[trigger] text@[k]),
        decreases bytes@.len() - i,
    {
        let b = bytes[i];
        assert(b == text@[i as int] as u8);
        assert('\0' <= text@[i as int] <= '\u{7f}');
        if b == 0x2E {
            assert(is_point(text@[i as int]));
            if points == 1 {
                proof {
                    let p = choose|p: int| 0 <= p < i && is_point(#[trigger] text@[p]);
                    assert(is_point(text@[p]) && is_point(text@[i as int]) && p != i);
                }
                return false;
            }
            points = 1;
            assert(forall|k: int| 0 <= k < i + 1 && is_point(#[trigger] text@[k]) ==> k == i);
        } else if 0x30 <= b && b <= 0x39 {
            assert(is_digit_char(text@[i as int]));
            assert(!is_point(text@[i as int]));
            digits = true;
        } else {
            assert(!is_decimal_char(text@[i as int]));
            return false;
        }
        i += 1;
    }
    digits
}

/// The score text, given what the score pattern found in a report.
pub fn check_score(found: Option<String>) -> (score: Result<String, VmafError>)
    ensures
        match score {
            Ok(text) => score_of(text_view(found)) == Ok::<Seq<char>, VmafError>(text@),
            Err(e) => score_of(text_view(found)) == Err::<Seq<char>, VmafError>(e),
        },
{
    match found {
        None => Err(VmafError::NoScore),
        Some(text) => if is_decimal(text.as_str()) {
            Ok(text)
        } else {
            Err(VmafError::MalformedScore)
        },
    }
}

/// The score text of a scorer's report: what follows the first
/// `VMAF score:` and its white space, as far as digits, bars and points
/// go, where that is a decimal number.
pub fn score_text(report: &str) -> (score: Result<String, VmafError>)
    ensures
        match score {
            Ok(text) => score_of(first_group(SCORE_PATTERN@, report@)) == Ok::<
                Seq<char>,
                VmafError,
            >(text@),
            Err(e) => score_of(first_group(SCORE_PATTERN@, report@)) == Err::<
                Seq<char>,
                VmafError,
            >(e),
        },
{
    check_score(find_first_group(SCORE_PATTERN, report))
}

} // verus!
