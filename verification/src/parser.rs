//! The time-component parser: turns a raw token such as `" 9:00am "`
//! into validated 12-hour components `(hour, minute, optional meridiem)`.
//!
//! The accepted grammar is `Digit{1,2} ":" Digit{2} [("AM"|"PM")]` with a
//! case-insensitive suffix, after trimming surrounding whitespace.  A
//! marker is only taken as a suffix when the character before it is not
//! alphabetic, so a stray word ending in the marker letters is not
//! misread as a time plus meridiem.

use vstd::prelude::*;
use crate::chars::{
    Meridiem, is_digit_char, is_alpha_char, mer_pair, mer_seq, char_is_digit, char_is_alpha,
    char_digit_val, classify_mer,
};
use crate::scan::{
    trimmed, occurs_once, position_of, all_digits, token_val, lemma_token_val_one,
    lemma_token_val_two, trim_window, find_unique,
};
use crate::errors::{TimeError, FormatIssue, ValueIssue};

verus! {

/// The components of a parsed time: an hour in 1..=12, a minute in
/// 0..=59, and the meridiem marker if the token carried one.
pub struct TimeComponents {
    pub hour: int,
    pub minute: int,
    pub meridiem: Option<Meridiem>,
}

/// Why the parser rejects a token, in the order the checks are made.
pub enum ParseFail {
    /// The trimmed token is nothing but a meridiem marker.
    MeridiemOnly,
    /// The candidate does not contain exactly one `:`.
    SeparatorCount,
    /// The hour field is empty or longer than two characters.
    HourLength,
    /// The minute field is not exactly two characters.
    MinuteLength,
    /// The hour field is not all decimal digits.
    HourNotNumeric,
    /// The minute field is not all decimal digits.
    MinuteNotNumeric,
    /// The hour value is outside 1..=12.
    HourOutOfRange,
    /// The minute value is outside 0..=59.
    MinuteOutOfRange,
}

/// What parsing a token yields.
pub enum ParseOutcome {
    Parsed(TimeComponents),
    Fail(ParseFail),
}

/// The meridiem marker standing at the end of the trimmed token, if its
/// last two characters spell one.
pub open spec fn suffix_mer(t: Seq<char>) -> Option<Meridiem> {
    if t.len() >= 2 {
        mer_pair(t[t.len() - 2], t[t.len() - 1])
    } else {
        None
    }
}

/// Whether the marker is actually taken as a suffix: one is present,
/// the token is more than the marker, and the character before the
/// marker is not alphabetic.
pub open spec fn takes_suffix(t: Seq<char>) -> bool {
    &&& suffix_mer(t) is Some
    &&& t.len() > 2
    &&& !is_alpha_char(t[t.len() - 3])
}

/// The clock-field text that remains after optional suffix stripping.
pub open spec fn candidate_of(t: Seq<char>) -> Seq<char> {
    if takes_suffix(t) {
        t.take(t.len() - 2)
    } else {
        t
    }
}

/// The meridiem the token records: the suffix when one is taken.
pub open spec fn mer_of(t: Seq<char>) -> Option<Meridiem> {
    if takes_suffix(t) {
        suffix_mer(t)
    } else {
        None
    }
}

/// Parses the candidate clock fields around their unique `:`, given the
/// meridiem recorded for the token.
pub open spec fn fields_outcome(c: Seq<char>, mer: Option<Meridiem>) -> ParseOutcome {
    if !occurs_once(c, ':') {
        ParseOutcome::Fail(ParseFail::SeparatorCount)
    } else {
        let k = position_of(c, ':');
        let h = c.take(k);
        let m = c.subrange(k + 1, c.len() as int);
        if h.len() < 1 || h.len() > 2 {
            ParseOutcome::Fail(ParseFail::HourLength)
        } else if m.len() != 2 {
            ParseOutcome::Fail(ParseFail::MinuteLength)
        } else if !all_digits(h) {
            ParseOutcome::Fail(ParseFail::HourNotNumeric)
        } else if !all_digits(m) {
            ParseOutcome::Fail(ParseFail::MinuteNotNumeric)
        } else if token_val(h) < 1 || token_val(h) > 12 {
            ParseOutcome::Fail(ParseFail::HourOutOfRange)
        } else if token_val(m) > 59 {
            ParseOutcome::Fail(ParseFail::MinuteOutOfRange)
        } else {
            ParseOutcome::Parsed(
                TimeComponents { hour: token_val(h), minute: token_val(m), meridiem: mer },
            )
        }
    }
}

/// What parsing the raw token `s` yields: trim, strip an unambiguous
/// meridiem suffix, then read the clock fields.
pub open spec fn parse_outcome(s: Seq<char>) -> ParseOutcome {
    let t = trimmed(s);
    if suffix_mer(t) is Some && t.len() == 2 {
        ParseOutcome::Fail(ParseFail::MeridiemOnly)
    } else {
        fields_outcome(candidate_of(t), mer_of(t))
    }
}

/// The hour field of the candidate, around the unique `:`.
pub open spec fn spec_hour_part(s: Seq<char>) -> Seq<char> {
    let c = candidate_of(trimmed(s));
    c.take(position_of(c, ':'))
}

/// The minute field of the candidate, around the unique `:`.
pub open spec fn spec_minute_part(s: Seq<char>) -> Seq<char> {
    let c = candidate_of(trimmed(s));
    c.subrange(position_of(c, ':') + 1, c.len() as int)
}

/// Whether the returned components are exactly the parsed ones, with
/// the meridiem spelled as canonical uppercase text.
pub open spec fn components_match(r: (u32, u32, Option<String>), c: TimeComponents) -> bool {
    &&& r.0 as int == c.hour
    &&& r.1 as int == c.minute
    &&& match (r.2, c.meridiem) {
        (Option::None, Option::None) => true,
        (Option::Some(txt), Option::Some(m)) => txt@ == mer_seq(m),
        _ => false,
    }
}

/// Whether `e` is exactly the error the parser owes for the token `s`:
/// the right variant and issue for the failure, carrying the raw token
/// and the offending field or value.
pub open spec fn parse_err_matches(s: Seq<char>, e: TimeError) -> bool {
    match e {
        TimeError::Format { issue, raw } => {
            &&& raw@ == s
            &&& match issue {
                FormatIssue::MeridiemOnly => parse_outcome(s) == ParseOutcome::Fail(
                    ParseFail::MeridiemOnly,
                ),
                FormatIssue::SeparatorCount => parse_outcome(s) == ParseOutcome::Fail(
                    ParseFail::SeparatorCount,
                ),
                FormatIssue::HourLength { part } => parse_outcome(s) == ParseOutcome::Fail(
                    ParseFail::HourLength,
                ) && part@ == spec_hour_part(s),
                FormatIssue::MinuteLength { part } => parse_outcome(s) == ParseOutcome::Fail(
                    ParseFail::MinuteLength,
                ) && part@ == spec_minute_part(s),
                _ => false,
            }
        },
        TimeError::Value { issue, raw } => {
            &&& raw@ == s
            &&& match issue {
                ValueIssue::HourNotNumeric { part } => parse_outcome(s) == ParseOutcome::Fail(
                    ParseFail::HourNotNumeric,
                ) && part@ == spec_hour_part(s),
                ValueIssue::MinuteNotNumeric { part } => parse_outcome(s) == ParseOutcome::Fail(
                    ParseFail::MinuteNotNumeric,
                ) && part@ == spec_minute_part(s),
                ValueIssue::HourOutOfRange { hour } => parse_outcome(s) == ParseOutcome::Fail(
                    ParseFail::HourOutOfRange,
                ) && hour as int == token_val(spec_hour_part(s)),
                ValueIssue::MinuteOutOfRange { minute } => parse_outcome(s) == ParseOutcome::Fail(
                    ParseFail::MinuteOutOfRange,
                ) && minute as int == token_val(spec_minute_part(s)),
            }
        },
        _ => false,
    }
}

/// A token that parses at all parses to a validated time: the hour in
/// 1..=12 and the minute in 0..=59.
pub proof fn lemma_parsed_bounds(s: Seq<char>)
    ensures
        parse_outcome(s) matches ParseOutcome::Parsed(tc) ==> 1 <= tc.hour <= 12 && 0 <= tc.minute
            <= 59,
{
    if parse_outcome(s) is Parsed {
        let tc = parse_outcome(s)->Parsed_0;
        let c = candidate_of(trimmed(s));
        let k = position_of(c, ':');
        let h = c.take(k);
        let m = c.subrange(k + 1, c.len() as int);
        assert(tc.hour == token_val(h));
        assert(tc.minute == token_val(m));
        lemma_token_val_two(m);
        crate::chars::lemma_digit_val_bounds(m[0]);
        crate::chars::lemma_digit_val_bounds(m[1]);
    }
}

/// Parses a raw time token into `(hour12, minute, meridiem)`.
///
/// Succeeds exactly when the trimmed token matches
/// `Digit{1,2} ":" Digit{2}` with an optional case-insensitive meridiem
/// suffix, the hour reads as 1..=12 and the minute as 0..=59; otherwise
/// returns the format or value error the grammar assigns to the token.
#[verifier::rlimit(100)]
pub fn parse_time_components(time_str: &str) -> (r: Result<(u32, u32, Option<String>), TimeError>)
    ensures
        match r {
            Ok(c) => parse_outcome(time_str@) matches ParseOutcome::Parsed(tc)
                && components_match(c, tc),
            Err(e) => parse_outcome(time_str@) is Fail && parse_err_matches(time_str@, e),
        },
{
    let ghost s = time_str@;
    let n = time_str.unicode_len();

    // Trim surrounding whitespace down to the window [lo, hi).
    let (lo, hi) = trim_window(time_str, 0, n);
    proof {
        assert(s.subrange(0, n as int) =~= s);
    }
    let ghost t = trimmed(s);
    assert(t =~= s.subrange(lo as int, hi as int));

    // Take an unambiguous meridiem suffix off the end of the window.
    let mut cand_end: usize = hi;
    let mut mer: Option<Meridiem> = None;
    if hi - lo >= 2 {
        assert(t[t.len() - 2] == s[hi - 2]);
        assert(t[t.len() - 1] == s[hi - 1]);
        let found = classify_mer(time_str.get_char(hi - 2), time_str.get_char(hi - 1));
        if let Some(m) = found {
            if hi - lo == 2 {
                assert(parse_outcome(s) == ParseOutcome::Fail(ParseFail::MeridiemOnly));
                return Err(
                    TimeError::Format {
                        issue: FormatIssue::MeridiemOnly,
                        raw: String::from_str(time_str),
                    },
                );
            }
            assert(t[t.len() - 3] == s[hi - 3]);
            let prev = time_str.get_char(hi - 3);
            if !char_is_alpha(prev) {
                cand_end = hi - 2;
                mer = Some(m);
            }
        }
    }
    assert(!(suffix_mer(t) is Some && t.len() == 2));
    assert(mer == mer_of(t));
    let ghost c = candidate_of(t);
    assert(c =~= s.subrange(lo as int, cand_end as int));

    // The candidate must contain exactly one ':'.
    let found_colon = find_unique(time_str, lo, cand_end, ':');
    let pos = match found_colon {
        Some(p) => p,
        None => {
            assert(parse_outcome(s) == ParseOutcome::Fail(ParseFail::SeparatorCount));
            return Err(
                TimeError::Format {
                    issue: FormatIssue::SeparatorCount,
                    raw: String::from_str(time_str),
                },
            );
        },
    };
    assert(occurs_once(c, ':') && position_of(c, ':') == pos - lo);
    let ghost hpart = spec_hour_part(s);
    let ghost mpart = spec_minute_part(s);
    assert(hpart =~= s.subrange(lo as int, pos as int));
    assert(mpart =~= s.subrange(pos + 1, cand_end as int));

    // Field lengths: one or two hour characters, exactly two minute
    // characters.
    let hlen = pos - lo;
    let mlen = cand_end - pos - 1;
    if hlen < 1 || hlen > 2 {
        assert(parse_outcome(s) == ParseOutcome::Fail(ParseFail::HourLength));
        return Err(
            TimeError::Format {
                issue: FormatIssue::HourLength {
                    part: String::from_str(time_str.substring_char(lo, pos)),
                },
                raw: String::from_str(time_str),
            },
        );
    }
    if mlen != 2 {
        assert(parse_outcome(s) == ParseOutcome::Fail(ParseFail::MinuteLength));
        return Err(
            TimeError::Format {
                issue: FormatIssue::MinuteLength {
                    part: String::from_str(time_str.substring_char(pos + 1, cand_end)),
                },
                raw: String::from_str(time_str),
            },
        );
    }

    // Both fields must be all decimal digits.
    let mut j: usize = lo;
    while j < pos
        invariant
            s == time_str@,
            n == s.len(),
            lo <= j <= pos <= cand_end <= n,
            forall|k: int| lo <= k < j ==> is_digit_char(s[k]),
            parse_outcome(s) == fields_outcome(candidate_of(trimmed(s)), mer_of(trimmed(s))),
            occurs_once(candidate_of(trimmed(s)), ':'),
            hpart == spec_hour_part(s) && hpart =~= s.subrange(lo as int, pos as int),
            mpart == spec_minute_part(s) && mpart =~= s.subrange(pos + 1, cand_end as int),
            1 <= hpart.len() <= 2,
            mpart.len() == 2,
        decreases pos - j,
    {
        if !char_is_digit(time_str.get_char(j)) {
            proof {
                assert(hpart[j - lo] == s[j as int]);
                assert(!all_digits(hpart));
            }
            return Err(
                TimeError::Value {
                    issue: ValueIssue::HourNotNumeric {
                        part: String::from_str(time_str.substring_char(lo, pos)),
                    },
                    raw: String::from_str(time_str),
                },
            );
        }
        j = j + 1;
    }
    proof {
        assert forall|k: int| 0 <= k < hpart.len() implies is_digit_char(hpart[k]) by {
            assert(hpart[k] == s[lo + k]);
        }
        assert(all_digits(hpart));
    }
    let mut j2: usize = pos + 1;
    while j2 < cand_end
        invariant
            s == time_str@,
            n == s.len(),
            lo <= pos < pos + 1 <= j2 <= cand_end <= n,
            forall|k: int| pos + 1 <= k < j2 ==> is_digit_char(s[k]),
            parse_outcome(s) == fields_outcome(candidate_of(trimmed(s)), mer_of(trimmed(s))),
            occurs_once(candidate_of(trimmed(s)), ':'),
            hpart == spec_hour_part(s) && hpart =~= s.subrange(lo as int, pos as int),
            mpart == spec_minute_part(s) && mpart =~= s.subrange(pos + 1, cand_end as int),
            all_digits(hpart),
            1 <= hpart.len() <= 2,
            mpart.len() == 2,
        decreases cand_end - j2,
    {
        if !char_is_digit(time_str.get_char(j2)) {
            proof {
                assert(mpart[j2 - (pos + 1)] == s[j2 as int]);
                assert(!all_digits(mpart));
            }
            return Err(
                TimeError::Value {
                    issue: ValueIssue::MinuteNotNumeric {
                        part: String::from_str(time_str.substring_char(pos + 1, cand_end)),
                    },
                    raw: String::from_str(time_str),
                },
            );
        }
        j2 = j2 + 1;
    }
    proof {
        assert forall|k: int| 0 <= k < mpart.len() implies is_digit_char(mpart[k]) by {
            assert(mpart[k] == s[pos + 1 + k]);
        }
        assert(all_digits(mpart));
    }

    // Read the numeric values.
    let hour: u32;
    if hlen == 1 {
        hour = char_digit_val(time_str.get_char(lo));
        proof {
            lemma_token_val_one(hpart);
            assert(hpart[0] == s[lo as int]);
        }
    } else {
        let d0 = char_digit_val(time_str.get_char(lo));
        let d1 = char_digit_val(time_str.get_char(lo + 1));
        hour = 10 * d0 + d1;
        proof {
            lemma_token_val_two(hpart);
            assert(hpart[0] == s[lo as int] && hpart[1] == s[lo + 1]);
        }
    }
    assert(hour as int == token_val(hpart));
    let m0 = char_digit_val(time_str.get_char(pos + 1));
    let m1 = char_digit_val(time_str.get_char(pos + 2));
    let minute: u32 = 10 * m0 + m1;
    proof {
        lemma_token_val_two(mpart);
        assert(mpart[0] == s[pos + 1] && mpart[1] == s[pos + 2]);
    }
    assert(minute as int == token_val(mpart));

    // Validate the 12-hour ranges.
    if hour < 1 || hour > 12 {
        assert(parse_outcome(s) == ParseOutcome::Fail(ParseFail::HourOutOfRange));
        return Err(
            TimeError::Value {
                issue: ValueIssue::HourOutOfRange { hour },
                raw: String::from_str(time_str),
            },
        );
    }
    if minute > 59 {
        assert(parse_outcome(s) == ParseOutcome::Fail(ParseFail::MinuteOutOfRange));
        return Err(
            TimeError::Value {
                issue: ValueIssue::MinuteOutOfRange { minute },
                raw: String::from_str(time_str),
            },
        );
    }

    let mer_text: Option<String> = match mer {
        None => None,
        Some(Meridiem::Am) => {
            proof {
                reveal_strlit("AM");
                assert("AM"@ =~= mer_seq(Meridiem::Am));
            }
            Some(String::from_str("AM"))
        },
        Some(Meridiem::Pm) => {
            proof {
                reveal_strlit("PM");
                assert("PM"@ =~= mer_seq(Meridiem::Pm));
            }
            Some(String::from_str("PM"))
        },
    };
    assert(parse_outcome(s) == ParseOutcome::Parsed(
        TimeComponents { hour: hour as int, minute: minute as int, meridiem: mer },
    ));
    Ok((hour, minute, mer_text))
}

} // verus!
