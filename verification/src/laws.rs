//! Laws relating the grammar, the renderer and the parser: a time
//! written in the accepted format always parses back to its own
//! components.

use vstd::prelude::*;
use crate::chars::{
    Meridiem, mer_seq, is_ws_char, is_digit_char, is_alpha_char, lemma_digit_val_bounds,
};
use crate::digits::{dec_digits, pad2, lemma_dec_digits_small, lemma_pad2_small};
use crate::parser::{
    TimeComponents, ParseOutcome, parse_outcome, suffix_mer, takes_suffix, candidate_of, mer_of,
    fields_outcome,
};
use crate::scan::{trimmed, only_at, lemma_position_of};

verus! {

/// A time written the way the grammar accepts it: one or two hour
/// digits, a colon, two minute digits, and an uppercase meridiem.
pub open spec fn rendered_time_token(hour: int, minute: int, mer: Meridiem) -> Seq<char> {
    dec_digits(hour) + seq![':'] + pad2(minute) + mer_seq(mer)
}

/// Round trip: every valid 12-hour time, rendered in the accepted
/// format, parses back to exactly its own hour, minute and meridiem.
pub proof fn lemma_parse_round_trip(hour: int, minute: int, mer: Meridiem)
    requires
        1 <= hour <= 12,
        0 <= minute <= 59,
    ensures
        parse_outcome(rendered_time_token(hour, minute, mer)) == ParseOutcome::Parsed(
            TimeComponents { hour, minute, meridiem: Some(mer) },
        ),
{
    let tok = rendered_time_token(hour, minute, mer);
    let hd = dec_digits(hour);
    let md = pad2(minute);
    let ms = mer_seq(mer);
    lemma_dec_digits_small(hour);
    lemma_pad2_small(minute);
    let hl = hd.len() as int;
    let ll = tok.len() as int;
    assert(ll == hl + 5);

    // No whitespace stands at either end, so trimming changes nothing.
    assert(tok[0] == hd[0]);
    lemma_digit_val_bounds(hd[0]);
    assert(!is_ws_char(tok[0]));
    assert(tok[ll - 1] == ms[1] && ms[1] == 'M');
    assert(!is_ws_char(tok[ll - 1]));
    let t = trimmed(tok);
    assert(t == tok);

    // The last two characters spell the meridiem, and a digit stands
    // before them, so the suffix is taken.
    assert(tok[ll - 2] == ms[0] && tok[ll - 1] == ms[1]);
    assert(suffix_mer(tok) == Some(mer));
    assert(tok[ll - 3] == md[1]);
    assert(is_digit_char(md[1]));
    assert(!is_alpha_char(md[1]));
    assert(takes_suffix(tok));
    assert(mer_of(tok) == Some(mer));
    let c = candidate_of(tok);
    assert(c =~= hd + seq![':'] + md);

    // The colon of the rendering is the only one: every other
    // character is a digit.
    assert(c[hl] == ':');
    assert forall|j: int| 0 <= j < c.len() && j != hl implies c[j] != ':' by {
        if j < hl {
            assert(c[j] == hd[j]);
            assert(is_digit_char(c[j]));
        } else {
            assert(c[j] == md[j - hl - 1]);
            assert(is_digit_char(c[j]));
        }
        lemma_digit_val_bounds(c[j]);
    }
    assert(only_at(c, ':', hl));
    lemma_position_of(c, ':', hl);

    // The fields around the colon are the rendered digits themselves.
    assert(c.take(hl) =~= hd);
    assert(c.subrange(hl + 1, c.len() as int) =~= md);
    assert(fields_outcome(c, Some(mer)) == ParseOutcome::Parsed(
        TimeComponents { hour, minute, meridiem: Some(mer) },
    ));
}

} // verus!
