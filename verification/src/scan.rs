//! Scanning of byte text: delimiter search, decimal numbers and UTF-8.

use vstd::prelude::*;
use vstd::slice::slice_subrange;
use vstd::utf8::{decode_utf8, valid_utf8};

verus! {

/// ASCII line feed.
pub const LF: u8 = 0x0A;

/// ASCII space.
pub const SPACE: u8 = 0x20;

/// Index of the first `byte` in `s` at or after `from`, or `s.len()` where
/// there is none.
pub open spec fn find_byte(s: Seq<u8>, byte: u8, from: int) -> int
    decreases s.len() - from,
{
    if from >= s.len() {
        s.len() as int
    } else if s[from] == byte {
        from
    } else {
        find_byte(s, byte, from + 1)
    }
}

/// `find_byte` stays within the sequence and stops at the first hit.
pub proof fn lemma_find_byte(s: Seq<u8>, byte: u8, from: int)
    requires
        0 <= from <= s.len(),
    ensures
        from <= find_byte(s, byte, from) <= s.len(),
        find_byte(s, byte, from) < s.len() ==> s[find_byte(s, byte, from)] == byte,
        forall|i: int| from <= i < find_byte(s, byte, from) ==> s[i] != byte,
    decreases s.len() - from,
{
    if from < s.len() && s[from] != byte {
        lemma_find_byte(s, byte, from + 1);
    }
}

/// Finds the first `byte` in `s` at or after `from`.
pub fn find(s: &[u8], byte: u8, from: usize) -> (at: usize)
    requires
        from <= s@.len(),
    ensures
        at == find_byte(s@, byte, from as int),
        from <= at <= s@.len(),
{
    let mut i: usize = from;
    while i < s.len() && s[i] != byte
        invariant
            from <= i <= s@.len(),
            find_byte(s@, byte, from as int) == find_byte(s@, byte, i as int),
        decreases s@.len() - i,
    {
        i += 1;
    }
    i
}

/// Whether `b` is an ASCII decimal digit.
pub open spec fn is_digit(b: u8) -> bool {
    0x30 <= b <= 0x39
}

/// Whether `s` holds ASCII decimal digits only.
pub open spec fn all_digits(s: Seq<u8>) -> bool {
    forall|i: int| 0 <= i < s.len() ==> is_digit(#[trigger] s[i])
}

/// The number that the decimal digits `s` write, most significant first.
pub open spec fn digits_value(s: Seq<u8>) -> nat
    decreases s.len(),
{
    if s.len() == 0 {
        0
    } else {
        (digits_value(s.drop_last()) * 10 + (s.last() - 0x30)) as nat
    }
}

/// The digits of an unsigned decimal number: the text without its optional
/// leading plus sign.
pub open spec fn unsigned_digits(s: Seq<u8>) -> Seq<u8> {
    if s.len() > 0 && s[0] == 0x2B {
        s.drop_first()
    } else {
        s
    }
}

/// The 32-bit number that `s` writes in decimal: an optional plus sign, then
/// one digit or more, with a value that fits. `None` for any other text.
pub open spec fn decimal_u32(s: Seq<u8>) -> Option<u32> {
    let digits = unsigned_digits(s);
    if digits.len() > 0 && all_digits(digits) && digits_value(digits) <= u32::MAX {
        Some(digits_value(digits) as u32)
    } else {
        None
    }
}

/// A prefix of a digit string writes a number no larger than the whole.
pub proof fn lemma_digits_value_prefix(s: Seq<u8>, n: int)
    requires
        0 <= n <= s.len(),
        all_digits(s),
    ensures
        digits_value(s.take(n)) <= digits_value(s),
    decreases s.len() - n,
{
    if n < s.len() {
        lemma_digits_value_prefix(s, n + 1);
        assert(s.take(n + 1).drop_last() =~= s.take(n));
        assert(is_digit(s[n]));
    } else {
        assert(s.take(n) =~= s);
    }
}

/// Reads an unsigned 32-bit decimal number.
pub fn parse_u32(s: &[u8]) -> (value: Option<u32>)
    ensures
        value == decimal_u32(s@),
{
    let start: usize = if s.len() > 0 && s[0] == 0x2B {
        1
    } else {
        0
    };
    let digits = slice_subrange(s, start, s.len());
    assert(digits@ =~= unsigned_digits(s@));
    if digits.len() == 0 {
        return None;
    }
    let mut acc: u64 = 0;
    let mut i: usize = 0;
    while i < digits.len()
        invariant
            i <= digits@.len(),
            digits@ == unsigned_digits(s@),
            acc <= u32::MAX,
            acc == digits_value(digits@.take(i as int)),
            all_digits(digits@.take(i as int)),
        decreases digits@.len() - i,
    {
        let b = digits[i];
        if b < 0x30 || b > 0x39 {
            assert(!is_digit(digits@[i as int]));
            return None;
        }
        proof {
            assert(digits@.take(i + 1).drop_last() =~= digits@.take(i as int));
            assert forall|k: int| 0 <= k < i + 1 implies is_digit(
                #[trigger] digits@.take(i + 1)[k],
            ) by {
                if k < i {
                    assert(digits@.take(i as int)[k] == digits@[k]);
                }
            }
        }
        let next: u64 = acc * 10 + (b - 0x30) as u64;
        assert(next == digits_value(digits@.take(i + 1)));
        if next > u32::MAX as u64 {
            proof {
                if all_digits(digits@) {
                    lemma_digits_value_prefix(digits@, i + 1);
                }
            }
            return None;
        }
        acc = next;
        i += 1;
    }
    assert(digits@.take(i as int) =~= digits@);
    Some(acc as u32)
}

/// The view of an optional text.
pub open spec fn text_view(text: Option<String>) -> Option<Seq<char>> {
    match text {
        Some(t) => Some(t@),
        None => None,
    }
}

/// Decodes UTF-8 text with `std::str::from_utf8`, which accepts exactly the
/// well-formed encodings; the text handed back holds the characters that
/// the bytes encode.
#[verifier::external_body]
pub(crate) fn utf8_text(bytes: &[u8]) -> (text: Option<String>)
    ensures
        text is Some <==> valid_utf8(bytes@),
        text matches Some(t) ==> t@ == decode_utf8(bytes@),
{
    match std::str::from_utf8(bytes) {
        Ok(t) => Some(t.to_string()),
        Err(_) => None,
    }
}

} // verus!
