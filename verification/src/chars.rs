//! Character classes used by the time grammar: whitespace, decimal
//! digits, meridiem letters, and alphabetic look-back characters.

use vstd::prelude::*;

verus! {

/// A resolved AM/PM marker.
#[derive(Clone, Copy, Debug, PartialEq, Eq, Structural)]
pub enum Meridiem {
    Am,
    Pm,
}

/// The characters with the Unicode `White_Space` property, exactly the
/// set that `str::trim` removes from the ends of a string.
pub open spec fn is_ws_char(c: char) -> bool {
    let n = c as u32;
    ||| n == 0x9
    ||| n == 0xA
    ||| n == 0xB
    ||| n == 0xC
    ||| n == 0xD
    ||| n == 0x20
    ||| n == 0x85
    ||| n == 0xA0
    ||| n == 0x1680
    ||| (0x2000 <= n && n <= 0x200A)
    ||| n == 0x2028
    ||| n == 0x2029
    ||| n == 0x202F
    ||| n == 0x205F
    ||| n == 0x3000
}

/// Runtime test for `is_ws_char`.
pub fn char_is_ws(c: char) -> (r: bool)
    ensures
        r == is_ws_char(c),
{
    let n = c as u32;
    n == 0x9 || n == 0xA || n == 0xB || n == 0xC || n == 0xD || n == 0x20 || n == 0x85 || n == 0xA0
        || n == 0x1680 || (0x2000 <= n && n <= 0x200A) || n == 0x2028 || n == 0x2029 || n == 0x202F
        || n == 0x205F || n == 0x3000
}

/// An ASCII decimal digit.
pub open spec fn is_digit_char(c: char) -> bool {
    '0' as u32 <= c as u32 && c as u32 <= '9' as u32
}

/// The numeric value of an ASCII decimal digit.
pub open spec fn digit_val(c: char) -> int {
    c as int - '0' as int
}

/// A digit character's value lies in 0..=9.
pub proof fn lemma_digit_val_bounds(c: char)
    requires
        is_digit_char(c),
    ensures
        0 <= digit_val(c) <= 9,
{
    assert((c as u32) as int == c as int);
    assert(('0' as u32) as int == '0' as int);
    assert(('9' as u32) as int == '9' as int);
}

/// Runtime test for `is_digit_char`.
pub fn char_is_digit(c: char) -> (r: bool)
    ensures
        r == is_digit_char(c),
{
    let n = c as u32;
    48 <= n && n <= 57
}

/// The digit value of `c` as a machine integer.
pub fn char_digit_val(c: char) -> (v: u32)
    requires
        is_digit_char(c),
    ensures
        v == digit_val(c),
        v <= 9,
{
    c as u32 - 48
}

/// Reads a two-character meridiem marker: `a`/`A` then `m`/`M` is AM,
/// `p`/`P` then `m`/`M` is PM, anything else is no marker.
pub open spec fn mer_pair(c0: char, c1: char) -> Option<Meridiem> {
    if c1 == 'M' || c1 == 'm' {
        if c0 == 'A' || c0 == 'a' {
            Some(Meridiem::Am)
        } else if c0 == 'P' || c0 == 'p' {
            Some(Meridiem::Pm)
        } else {
            None
        }
    } else {
        None
    }
}

/// Runtime test for `mer_pair`.
pub fn classify_mer(c0: char, c1: char) -> (r: Option<Meridiem>)
    ensures
        r == mer_pair(c0, c1),
{
    if c1 == 'M' || c1 == 'm' {
        if c0 == 'A' || c0 == 'a' {
            Some(Meridiem::Am)
        } else if c0 == 'P' || c0 == 'p' {
            Some(Meridiem::Pm)
        } else {
            None
        }
    } else {
        None
    }
}

/// The canonical two uppercase characters of a meridiem marker.
pub open spec fn mer_seq(m: Meridiem) -> Seq<char> {
    match m {
        Meridiem::Am => seq!['A', 'M'],
        Meridiem::Pm => seq!['P', 'M'],
    }
}

/// Whether a character outside ASCII has the Unicode `Alphabetic`
/// property; left uninterpreted, the library never decides it itself.
pub uninterp spec fn unicode_alphabetic(c: char) -> bool;

/// A character with the Unicode `Alphabetic` property.  Within ASCII
/// these are exactly the letters; beyond ASCII the class is opaque.
pub open spec fn is_alpha_char(c: char) -> bool {
    if (c as u32) < 128 {
        ('a' as u32 <= c as u32 && c as u32 <= 'z' as u32) || ('A' as u32 <= c as u32 && c as u32
            <= 'Z' as u32)
    } else {
        unicode_alphabetic(c)
    }
}

/// Relies on `char::is_alphabetic` from std: it reports the Unicode
/// `Alphabetic` property, which within ASCII holds exactly for the
/// letters `a`..=`z` and `A`..=`Z`.
#[verifier::external_body]
pub fn char_is_alpha(c: char) -> (r: bool)
    ensures
        r == is_alpha_char(c),
        c as u32 >= 128 ==> r == unicode_alphabetic(c),
{
    c.is_alphabetic()
}

} // verus!
