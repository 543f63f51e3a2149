//! The range-difference calculator: splits a range such as
//! `"09:00AM-05:30PM"` on its unique `-`, parses both sides, resolves
//! the AM/PM ambiguity policy, enforces same-day ordering, and returns
//! the elapsed whole minutes.
//!
//! The ambiguity policy: when both sides name a meridiem each side uses
//! its own; when neither does, the start is read as AM and the end as
//! PM, so a bare `"9:00-5:30"` reads as a workday; when exactly one
//! side names one, the range is rejected rather than guessed at.

use vstd::prelude::*;
use crate::chars::{Meridiem, mer_seq};
use crate::convert::{
    minutes_since_midnight, is_am_text, is_pm_text, convert_components_to_minutes,
};
use crate::errors::{TimeError, FormatIssue};
use crate::parser::{
    TimeComponents, ParseOutcome, ParseFail, parse_outcome, parse_err_matches,
    parse_time_components, lemma_parsed_bounds,
};
use crate::scan::{trimmed, occurs_once, position_of, trim_window, find_unique};

verus! {

/// Why a range is rejected, in the order the checks are made.
pub enum RangeFail {
    /// The range does not contain exactly one `-`.
    Shape,
    /// A side is empty once trimmed.
    EmptySide,
    /// The start side is not a valid time.
    StartParse(ParseFail),
    /// The end side is not a valid time.
    EndParse(ParseFail),
    /// Exactly one side names a meridiem.
    Ambiguous,
    /// The resolved end precedes the resolved start.
    Order,
}

/// What computing a range difference yields.
pub enum RangeOutcome {
    Minutes(int),
    Fail(RangeFail),
}

/// The meridiem the start side resolves to: its own, or AM when the
/// range leaves both sides bare.
pub open spec fn resolved_start_pm(mer: Option<Meridiem>) -> bool {
    match mer {
        Some(m) => m is Pm,
        None => false,
    }
}

/// The meridiem the end side resolves to: its own, or PM when the
/// range leaves both sides bare.
pub open spec fn resolved_end_pm(mer: Option<Meridiem>) -> bool {
    match mer {
        Some(m) => m is Pm,
        None => true,
    }
}

/// Orders two resolved times and takes their distance in minutes.
pub open spec fn ordered_difference(
    sc: TimeComponents,
    spm: bool,
    ec: TimeComponents,
    epm: bool,
) -> RangeOutcome {
    let smin = minutes_since_midnight(sc.hour, sc.minute, spm);
    let emin = minutes_since_midnight(ec.hour, ec.minute, epm);
    if emin < smin {
        RangeOutcome::Fail(RangeFail::Order)
    } else {
        RangeOutcome::Minutes(emin - smin)
    }
}

/// The trimmed text before the unique `-`.
pub open spec fn spec_start_raw(s: Seq<char>) -> Seq<char> {
    trimmed(s.take(position_of(s, '-')))
}

/// The trimmed text after the unique `-`.
pub open spec fn spec_end_raw(s: Seq<char>) -> Seq<char> {
    trimmed(s.subrange(position_of(s, '-') + 1, s.len() as int))
}

/// What computing the difference of the raw range `s` yields: split on
/// the unique `-`, parse both trimmed sides, resolve the meridiems,
/// order, and subtract.
pub open spec fn range_outcome(s: Seq<char>) -> RangeOutcome {
    if !occurs_once(s, '-') {
        RangeOutcome::Fail(RangeFail::Shape)
    } else {
        let start_raw = spec_start_raw(s);
        let end_raw = spec_end_raw(s);
        if start_raw.len() == 0 || end_raw.len() == 0 {
            RangeOutcome::Fail(RangeFail::EmptySide)
        } else {
            match parse_outcome(start_raw) {
                ParseOutcome::Fail(f) => RangeOutcome::Fail(RangeFail::StartParse(f)),
                ParseOutcome::Parsed(sc) => match parse_outcome(end_raw) {
                    ParseOutcome::Fail(f) => RangeOutcome::Fail(RangeFail::EndParse(f)),
                    ParseOutcome::Parsed(ec) => {
                        if (sc.meridiem is Some) != (ec.meridiem is Some) {
                            RangeOutcome::Fail(RangeFail::Ambiguous)
                        } else {
                            ordered_difference(
                                sc,
                                resolved_start_pm(sc.meridiem),
                                ec,
                                resolved_end_pm(ec.meridiem),
                            )
                        }
                    },
                },
            }
        }
    }
}

/// Whether `e` is exactly the error the calculator owes for the raw
/// range `s`: the right variant for the failure, carrying the raw text
/// and, for an ordering fault, both sides' resolved interpretations.
pub open spec fn range_err_matches(s: Seq<char>, e: TimeError) -> bool {
    let start_raw = spec_start_raw(s);
    let end_raw = spec_end_raw(s);
    match range_outcome(s) {
        RangeOutcome::Fail(f) => match f {
            RangeFail::Shape => e matches TimeError::Format {
                issue: FormatIssue::RangeShape,
                raw,
            } && raw@ == s,
            RangeFail::EmptySide => e matches TimeError::Format {
                issue: FormatIssue::EmptySide,
                raw,
            } && raw@ == s,
            RangeFail::StartParse(_) => parse_err_matches(start_raw, e),
            RangeFail::EndParse(_) => parse_err_matches(end_raw, e),
            RangeFail::Ambiguous => e matches TimeError::Ambiguity { raw } && raw@ == s,
            RangeFail::Order => parse_outcome(start_raw) matches ParseOutcome::Parsed(sc)
                && parse_outcome(end_raw) matches ParseOutcome::Parsed(ec)
                && e matches TimeError::Ordering {
                start_raw: sr,
                start_hour,
                start_minute,
                start_pm,
                end_raw: er,
                end_hour,
                end_minute,
                end_pm,
            } && sr@ == start_raw && start_hour as int == sc.hour && start_minute as int
                == sc.minute && start_pm == resolved_start_pm(sc.meridiem) && er@ == end_raw
                && end_hour as int == ec.hour && end_minute as int == ec.minute && end_pm
                == resolved_end_pm(ec.meridiem),
        },
        _ => false,
    }
}

/// Whether `pm` says that the meridiem text `txt` is the PM marker.
fn mer_text_is_pm(txt: &String, m: Ghost<Meridiem>) -> (pm: bool)
    requires
        txt@ == mer_seq(m@),
    ensures
        pm == (m@ is Pm),
{
    proof {
        reveal_strlit("PM");
        assert("PM"@ =~= mer_seq(Meridiem::Pm));
        if m@ is Am {
            assert(mer_seq(Meridiem::Am)[0] == 'A');
            assert(txt@ != "PM"@);
        }
    }
    crate::convert::str_is_pm(txt.as_str())
}

/// Computes the elapsed whole minutes of a same-day range.
///
/// Succeeds exactly when the range splits on a unique `-` into two
/// parseable times whose meridiems resolve under the ambiguity policy
/// and whose resolved end does not precede the resolved start; the
/// result is their distance, at most a day's 1439 minutes.  Divide by
/// sixty for the elapsed hours.
pub fn calculate_time_difference_from_range_str(range_str: &str) -> (r: Result<u32, TimeError>)
    ensures
        match r {
            Ok(mins) => range_outcome(range_str@) == RangeOutcome::Minutes(mins as int) && mins
                <= 1439,
            Err(e) => range_outcome(range_str@) is Fail && range_err_matches(range_str@, e),
        },
{
    let ghost s = range_str@;
    let n = range_str.unicode_len();

    // The range must contain exactly one '-'.
    proof {
        assert(s.subrange(0, n as int) =~= s);
    }
    let dash = match find_unique(range_str, 0, n, '-') {
        Some(p) => p,
        None => {
            return Err(
                TimeError::Format {
                    issue: FormatIssue::RangeShape,
                    raw: String::from_str(range_str),
                },
            );
        },
    };
    assert(occurs_once(s, '-') && position_of(s, '-') == dash);

    // Trim both sides; neither may be empty.
    let (slo, shi) = trim_window(range_str, 0, dash);
    let (elo, ehi) = trim_window(range_str, dash + 1, n);
    proof {
        assert(s.subrange(0, dash as int) =~= s.take(dash as int));
        assert(spec_start_raw(s) == s.subrange(slo as int, shi as int));
        assert(spec_end_raw(s) == s.subrange(elo as int, ehi as int));
    }
    if slo == shi || elo == ehi {
        return Err(
            TimeError::Format { issue: FormatIssue::EmptySide, raw: String::from_str(range_str) },
        );
    }
    let start_str = range_str.substring_char(slo, shi);
    let end_str = range_str.substring_char(elo, ehi);
    assert(start_str@ == spec_start_raw(s));
    assert(end_str@ == spec_end_raw(s));

    // Parse both sides, propagating the side's own error.
    let (start_hour, start_minute, start_mer) = match parse_time_components(start_str) {
        Ok(c) => c,
        Err(e) => {
            return Err(e);
        },
    };
    let ghost sc = parse_outcome(start_str@)->Parsed_0;
    let (end_hour, end_minute, end_mer) = match parse_time_components(end_str) {
        Ok(c) => c,
        Err(e) => {
            return Err(e);
        },
    };
    let ghost ec = parse_outcome(end_str@)->Parsed_0;
    proof {
        lemma_parsed_bounds(start_str@);
        lemma_parsed_bounds(end_str@);
    }

    // Resolve the meridiems: both sides' own, or implicit AM..PM, or
    // an ambiguous mix.
    let start_pm: bool;
    let end_pm: bool;
    let start_minutes: u32;
    let end_minutes: u32;
    match (start_mer, end_mer) {
        (Some(sa), Some(ea)) => {
            start_pm = mer_text_is_pm(&sa, Ghost(sc.meridiem->0));
            end_pm = mer_text_is_pm(&ea, Ghost(ec.meridiem->0));
            proof {
                reveal_strlit("AM");
                reveal_strlit("PM");
                assert("AM"@ =~= mer_seq(Meridiem::Am));
                assert("PM"@ =~= mer_seq(Meridiem::Pm));
                assert("AM"@[0] == 'A' && "PM"@[0] == 'P');
                assert(is_am_text(sa@) || is_pm_text(sa@));
                assert(is_pm_text(sa@) == start_pm);
                assert(is_am_text(ea@) || is_pm_text(ea@));
                assert(is_pm_text(ea@) == end_pm);
            }
            start_minutes = match convert_components_to_minutes(
                start_hour,
                start_minute,
                sa.as_str(),
                start_str,
            ) {
                Ok(v) => v,
                Err(_) => unreached(),
            };
            end_minutes = match convert_components_to_minutes(
                end_hour,
                end_minute,
                ea.as_str(),
                end_str,
            ) {
                Ok(v) => v,
                Err(_) => unreached(),
            };
        },
        (None, None) => {
            start_pm = false;
            end_pm = true;
            proof {
                reveal_strlit("AM");
                reveal_strlit("PM");
                assert("AM"@[0] == 'A' && "PM"@[0] == 'P');
            }
            start_minutes = match convert_components_to_minutes(
                start_hour,
                start_minute,
                "AM",
                start_str,
            ) {
                Ok(v) => v,
                Err(_) => unreached(),
            };
            end_minutes = match convert_components_to_minutes(
                end_hour,
                end_minute,
                "PM",
                end_str,
            ) {
                Ok(v) => v,
                Err(_) => unreached(),
            };
        },
        _ => {
            assert(range_outcome(s) == RangeOutcome::Fail(RangeFail::Ambiguous));
            return Err(TimeError::Ambiguity { raw: String::from_str(range_str) });
        },
    }
    assert(start_pm == resolved_start_pm(sc.meridiem));
    assert(end_pm == resolved_end_pm(ec.meridiem));
    assert(start_minutes as int == minutes_since_midnight(sc.hour, sc.minute, start_pm));
    assert(end_minutes as int == minutes_since_midnight(ec.hour, ec.minute, end_pm));

    // The range must run forward within one day.
    if end_minutes < start_minutes {
        assert(range_outcome(s) == RangeOutcome::Fail(RangeFail::Order));
        return Err(
            TimeError::Ordering {
                start_raw: String::from_str(start_str),
                start_hour,
                start_minute,
                start_pm,
                end_raw: String::from_str(end_str),
                end_hour,
                end_minute,
                end_pm,
            },
        );
    }
    assert(range_outcome(s) == RangeOutcome::Minutes(end_minutes - start_minutes));
    Ok(end_minutes - start_minutes)
}

} // verus!
