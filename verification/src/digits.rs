//! Decimal rendering of small numbers, used both to model formatted
//! time tokens and to build diagnostic messages.

use vstd::prelude::*;
use crate::chars::{is_digit_char, digit_val};
use crate::scan::{all_digits, token_val};

verus! {

/// The ASCII digit character for a value in `0..=9`.
pub open spec fn digit_char(d: int) -> char {
    if d == 0 {
        '0'
    } else if d == 1 {
        '1'
    } else if d == 2 {
        '2'
    } else if d == 3 {
        '3'
    } else if d == 4 {
        '4'
    } else if d == 5 {
        '5'
    } else if d == 6 {
        '6'
    } else if d == 7 {
        '7'
    } else if d == 8 {
        '8'
    } else {
        '9'
    }
}

/// The decimal digits of a non-negative number, most significant first,
/// without leading zeros (a lone zero renders as `"0"`).
pub open spec fn dec_digits(n: int) -> Seq<char>
    decreases n,
{
    if n < 10 {
        seq![digit_char(n)]
    } else {
        dec_digits(n / 10).push(digit_char(n % 10))
    }
}

/// The decimal digits of a number padded to at least two places, as the
/// minute field of a time is written.
pub open spec fn pad2(n: int) -> Seq<char> {
    if n < 10 {
        seq!['0'] + dec_digits(n)
    } else {
        dec_digits(n)
    }
}

/// `digit_char` renders digit values onto digit characters, faithfully.
pub proof fn lemma_digit_char(d: int)
    requires
        0 <= d <= 9,
    ensures
        is_digit_char(digit_char(d)),
        digit_val(digit_char(d)) == d,
{
}

/// For numbers up to two digits the rendering is one or two digit
/// characters whose token value is the number itself.
pub proof fn lemma_dec_digits_small(n: int)
    requires
        0 <= n <= 99,
    ensures
        all_digits(dec_digits(n)),
        token_val(dec_digits(n)) == n,
        n < 10 ==> dec_digits(n) == seq![digit_char(n)],
        n >= 10 ==> dec_digits(n) == seq![digit_char(n / 10), digit_char(n % 10)],
        1 <= dec_digits(n).len() <= 2,
{
    if n < 10 {
        lemma_digit_char(n);
        let s = dec_digits(n);
        assert(s == seq![digit_char(n)]);
        crate::scan::lemma_token_val_one(s);
    } else {
        lemma_digit_char(n / 10);
        lemma_digit_char(n % 10);
        let s = dec_digits(n);
        assert(dec_digits(n / 10) == seq![digit_char(n / 10)]);
        assert(s =~= seq![digit_char(n / 10), digit_char(n % 10)]);
        crate::scan::lemma_token_val_two(s);
    }
}

/// The padded rendering is exactly two digit characters for values
/// below one hundred, and reads back as the value.
pub proof fn lemma_pad2_small(n: int)
    requires
        0 <= n <= 99,
    ensures
        all_digits(pad2(n)),
        token_val(pad2(n)) == n,
        pad2(n).len() == 2,
        pad2(n) == seq![digit_char(n / 10), digit_char(n % 10)],
{
    lemma_dec_digits_small(n);
    if n < 10 {
        lemma_digit_char(0);
        lemma_digit_char(n);
        let s = pad2(n);
        assert(s =~= seq![digit_char(n / 10), digit_char(n % 10)]);
        crate::scan::lemma_token_val_two(s);
    }
}

/// One ASCII digit as a borrowed string.
pub fn digit_str(d: u32) -> (r: &'static str)
    requires
        d < 10,
    ensures
        r@ == seq![digit_char(d as int)],
{
    let r: &'static str = if d == 0 {
        "0"
    } else if d == 1 {
        "1"
    } else if d == 2 {
        "2"
    } else if d == 3 {
        "3"
    } else if d == 4 {
        "4"
    } else if d == 5 {
        "5"
    } else if d == 6 {
        "6"
    } else if d == 7 {
        "7"
    } else if d == 8 {
        "8"
    } else {
        "9"
    };
    proof {
        reveal_strlit("0");
        reveal_strlit("1");
        reveal_strlit("2");
        reveal_strlit("3");
        reveal_strlit("4");
        reveal_strlit("5");
        reveal_strlit("6");
        reveal_strlit("7");
        reveal_strlit("8");
        reveal_strlit("9");
        assert(r@ =~= seq![digit_char(d as int)]);
    }
    r
}

/// Appends the decimal rendering of `n` to `out`.
pub fn push_u32(out: &mut String, n: u32)
    ensures
        final(out)@ == old(out)@ + dec_digits(n as int),
    decreases n,
{
    if n < 10 {
        out.append(digit_str(n));
    } else {
        push_u32(out, n / 10);
        out.append(digit_str(n % 10));
        proof {
            assert(final(out)@ =~= old(out)@ + dec_digits(n as int));
        }
    }
}

/// Appends the two-place padded rendering of `n` to `out`.
pub fn push_u32_pad2(out: &mut String, n: u32)
    ensures
        final(out)@ == old(out)@ + pad2(n as int),
{
    if n < 10 {
        out.append("0");
        out.append(digit_str(n));
        proof {
            reveal_strlit("0");
            assert(final(out)@ =~= old(out)@ + pad2(n as int));
        }
    } else {
        push_u32(out, n);
    }
}

} // verus!
