//! Numbers as decimal text, as command lines and file names hold them.

use vstd::prelude::*;
use vstd::string::{StrSliceExecFns, StringExecFns};

verus! {

/// The character of the digit `d`.
pub open spec fn digit_char(d: nat) -> char {
    if d == 0 {
        '0'
    } else if d == 1 {
        '1'
    } else if d == 2 {
        '2'
    } else if d == 3 {
        '3'
    } else if d == 4 {
        '4'
    } else if d == 5 {
        '5'
    } else if d == 6 {
        '6'
    } else if d == 7 {
        '7'
    } else if d == 8 {
        '8'
    } else {
        '9'
    }
}

/// The decimal digits of `n`, most significant first, without leading
/// zeros.
pub open spec fn decimal_chars(n: nat) -> Seq<char>
    decreases n,
{
    if n < 10 {
        seq![digit_char(n)]
    } else {
        decimal_chars(n / 10).push(digit_char(n % 10))
    }
}

/// `count` zeros.
pub open spec fn zeros(count: nat) -> Seq<char> {
    Seq::new(count, |i: int| '0')
}

/// The decimal digits of `n`, with zeros before them where they are fewer
/// than `width`.
pub open spec fn padded_chars(n: nat, width: nat) -> Seq<char> {
    if decimal_chars(n).len() < width {
        zeros((width - decimal_chars(n).len()) as nat) + decimal_chars(n)
    } else {
        decimal_chars(n)
    }
}

fn digit_text(d: u64) -> (text: &'static str)
    requires
        d < 10,
    ensures
        text@ == seq![digit_char(d as nat)],
{
    proof {
        reveal_strlit("0");
        reveal_strlit("1");
        reveal_strlit("2");
        reveal_strlit("3");
        reveal_strlit("4");
        reveal_strlit("5");
        reveal_strlit("6");
        reveal_strlit("7");
        reveal_strlit("8");
        reveal_strlit("9");
    }
    let text = if d == 0 {
        "0"
    } else if d == 1 {
        "1"
    } else if d == 2 {
        "2"
    } else if d == 3 {
        "3"
    } else if d == 4 {
        "4"
    } else if d == 5 {
        "5"
    } else if d == 6 {
        "6"
    } else if d == 7 {
        "7"
    } else if d == 8 {
        "8"
    } else {
        "9"
    };
    assert(text@ =~= seq![digit_char(d as nat)]);
    text
}

/// Writes `n` in decimal.
pub fn decimal(n: u64) -> (text: String)
    ensures
        text@ == decimal_chars(n as nat),
    decreases n,
{
    if n < 10 {
        String::from_str(digit_text(n))
    } else {
        let mut text = decimal(n / 10);
        text.append(digit_text(n % 10));
        text
    }
}

/// Writes `n` in decimal, with zeros before it up to `width` characters.
pub fn zero_padded(n: u64, width: usize) -> (text: String)
    ensures
        text@ == padded_chars(n as nat, width as nat),
{
    let digits = decimal(n);
    let len = digits.as_str().unicode_len();
    let mut text = String::new();
    let mut i: usize = len;
    proof {
        reveal_strlit("0");
        assert("0"@ =~= seq!['0']);
        assert(text@ =~= zeros(0));
    }
    while i < width
        invariant
            len <= i,
            len == digits@.len(),
            len < width ==> i <= width,
            len >= width ==> i == len,
            text@ == zeros((i - len) as nat),
            "0"@ == seq!['0'],
        decreases width - i,
    {
        text.append("0");
        i += 1;
        assert(text@ =~= zeros((i - len) as nat));
    }
    text.append(digits.as_str());
    assert(zeros(0) + digits@ =~= digits@);
    text
}

} // verus!
