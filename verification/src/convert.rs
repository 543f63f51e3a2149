//! The meridiem converter: 12-hour components plus an `"AM"`/`"PM"`
//! indicator become minutes since midnight, the only quantity the
//! range calculator compares or subtracts.

use vstd::prelude::*;
use crate::errors::TimeError;

verus! {

/// The text is exactly the uppercase AM indicator.
pub open spec fn is_am_text(s: Seq<char>) -> bool {
    s == "AM"@
}

/// The text is exactly the uppercase PM indicator.
pub open spec fn is_pm_text(s: Seq<char>) -> bool {
    s == "PM"@
}

/// Minutes since midnight of an hour in 1..=12 with a minute and a
/// meridiem: 12 AM is the midnight hour 0, 12 PM is the noon hour 12,
/// every other PM hour lies twelve hours after its AM reading.
pub open spec fn minutes_since_midnight(hour12: int, minute: int, pm: bool) -> int {
    let hour24 = if pm {
        if hour12 == 12 {
            12
        } else {
            hour12 + 12
        }
    } else {
        if hour12 == 12 {
            0
        } else {
            hour12
        }
    };
    hour24 * 60 + minute
}

/// For every hour short of twelve, the PM reading of a time lies
/// exactly 720 minutes after its AM reading.
pub proof fn lemma_pm_offset(hour12: int, minute: int)
    requires
        1 <= hour12 <= 11,
    ensures
        minutes_since_midnight(hour12, minute, true) - minutes_since_midnight(hour12, minute, false)
            == 720,
{
}

/// Whether `s` reads exactly `"AM"`.
fn str_is_am(s: &str) -> (r: bool)
    ensures
        r == is_am_text(s@),
{
    proof {
        reveal_strlit("AM");
    }
    let r = s.unicode_len() == 2 && s.get_char(0) == 'A' && s.get_char(1) == 'M';
    proof {
        if r {
            assert(s@ =~= "AM"@);
        }
    }
    r
}

/// Whether `s` reads exactly `"PM"`.
pub(crate) fn str_is_pm(s: &str) -> (r: bool)
    ensures
        r == is_pm_text(s@),
{
    proof {
        reveal_strlit("PM");
    }
    let r = s.unicode_len() == 2 && s.get_char(0) == 'P' && s.get_char(1) == 'M';
    proof {
        if r {
            assert(s@ =~= "PM"@);
        }
    }
    r
}

/// Converts validated 12-hour components and an uppercase `"AM"`/`"PM"`
/// indicator into total minutes since midnight.
///
/// Any other indicator is a contract violation by the caller — the
/// parser never emits one — and is reported loudly as a conversion
/// error carrying the indicator and the raw time it came from.
pub fn convert_components_to_minutes(
    hour12: u32,
    minute: u32,
    ampm_indicator: &str,
    original_time_str_for_error: &str,
) -> (r: Result<u32, TimeError>)
    requires
        1 <= hour12 <= 12,
        minute <= 59,
    ensures
        match r {
            Ok(mins) => (is_am_text(ampm_indicator@) || is_pm_text(ampm_indicator@)) && mins as int
                == minutes_since_midnight(
                hour12 as int,
                minute as int,
                is_pm_text(ampm_indicator@),
            ) && mins <= 1439,
            Err(e) => !is_am_text(ampm_indicator@) && !is_pm_text(ampm_indicator@) && (
            e matches TimeError::Conversion { indicator, raw } && indicator@ == ampm_indicator@
                && raw@ == original_time_str_for_error@),
        },
{
    if str_is_am(ampm_indicator) {
        let hour24: u32 = if hour12 == 12 {
            0
        } else {
            hour12
        };
        proof {
            reveal_strlit("AM");
            reveal_strlit("PM");
            assert("AM"@[0] == 'A' && "PM"@[0] == 'P');
            assert(!is_pm_text(ampm_indicator@));
        }
        Ok(hour24 * 60 + minute)
    } else if str_is_pm(ampm_indicator) {
        let hour24: u32 = if hour12 == 12 {
            12
        } else {
            hour12 + 12
        };
        Ok(hour24 * 60 + minute)
    } else {
        Err(
            TimeError::Conversion {
                indicator: String::from_str(ampm_indicator),
                raw: String::from_str(original_time_str_for_error),
            },
        )
    }
}

} // verus!
