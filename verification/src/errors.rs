//! The closed error taxonomy of the library: structural format faults,
//! out-of-range or non-numeric values, ambiguous ranges, reversed
//! ranges, and internal meridiem contract violations.  Every variant
//! carries the raw text and resolved context it needs to render a
//! precise diagnostic message.

use vstd::prelude::*;
use crate::digits::{dec_digits, pad2, push_u32, push_u32_pad2};

verus! {

/// A structural fault: the token or range does not have the shape the
/// grammar asks for.
#[derive(Debug, PartialEq, Eq)]
pub enum FormatIssue {
    /// The whole token is nothing but an AM/PM marker.
    MeridiemOnly,
    /// The token does not contain exactly one `:`.
    SeparatorCount,
    /// The hour field is empty or longer than two characters.
    HourLength { part: String },
    /// The minute field is not exactly two characters.
    MinuteLength { part: String },
    /// The range does not contain exactly one `-`.
    RangeShape,
    /// A side of the range is empty once trimmed.
    EmptySide,
}

/// A well-shaped field whose content is not a valid value.
#[derive(Debug, PartialEq, Eq)]
pub enum ValueIssue {
    /// The hour field holds something other than decimal digits.
    HourNotNumeric { part: String },
    /// The minute field holds something other than decimal digits.
    MinuteNotNumeric { part: String },
    /// The hour is outside 1..=12.
    HourOutOfRange { hour: u32 },
    /// The minute is outside 0..=59.
    MinuteOutOfRange { minute: u32 },
}

/// Everything that can go wrong while parsing a time or computing a
/// range difference.
#[derive(Debug, PartialEq, Eq)]
#[allow(inconsistent_fields)]
pub enum TimeError {
    /// The input is structurally not a time or a range.
    Format { issue: FormatIssue, raw: String },
    /// A field is structurally fine but semantically out of range.
    Value { issue: ValueIssue, raw: String },
    /// Exactly one side of a range names a meridiem.
    Ambiguity { raw: String },
    /// The resolved end of a range precedes its resolved start.
    Ordering {
        start_raw: String,
        start_hour: u32,
        start_minute: u32,
        start_pm: bool,
        end_raw: String,
        end_hour: u32,
        end_minute: u32,
        end_pm: bool,
    },
    /// A meridiem indicator other than `"AM"`/`"PM"` reached the
    /// converter: a caller broke the parser's contract.
    Conversion { indicator: String, raw: String },
}

/// The canonical uppercase meridiem text used in diagnostics.
pub open spec fn mer_text(pm: bool) -> Seq<char> {
    if pm {
        "PM"@
    } else {
        "AM"@
    }
}

/// The diagnostic message of a structural fault.
pub open spec fn format_message_spec(issue: FormatIssue, raw: Seq<char>) -> Seq<char> {
    match issue {
        FormatIssue::MeridiemOnly => "Invalid time format: '"@ + raw
            + "'. Time string is too short or just an AM/PM indicator."@,
        FormatIssue::SeparatorCount => "Invalid time format: '"@ + raw
            + "'. Expected H:MM or HH:MM (optionally followed by AM/PM). Missing or too many colons."@,
        FormatIssue::HourLength { part } => "Invalid hour format in '"@ + raw + "'. Hour part '"@
            + part@ + "' must be 1 or 2 digits."@,
        FormatIssue::MinuteLength { part } => "Invalid minute format in '"@ + raw
            + "'. Minute part '"@ + part@ + "' must be 2 digits."@,
        FormatIssue::RangeShape => "Invalid input format: '"@ + raw
            + "'. Expected format is H(H):MM[am/pm]-H(H):MM[am/pm]."@,
        FormatIssue::EmptySide => "Invalid input format: '"@ + raw
            + "'. Start or end time string is empty after splitting by '-'."@,
    }
}

/// The diagnostic message of a value fault.
pub open spec fn value_message_spec(issue: ValueIssue, raw: Seq<char>) -> Seq<char> {
    match issue {
        ValueIssue::HourNotNumeric { part } => "Invalid hour value: '"@ + part@ + "' in '"@ + raw
            + "'. Hour must be a number."@,
        ValueIssue::MinuteNotNumeric { part } => "Invalid minute value: '"@ + part@ + "' in '"@
            + raw + "'. Minute must be a number."@,
        ValueIssue::HourOutOfRange { hour } => "Invalid hour: "@ + dec_digits(hour as int)
            + ". Hour must be between 1 and 12 for 12-hour format in '"@ + raw + "'."@,
        ValueIssue::MinuteOutOfRange { minute } => "Invalid minute: "@ + dec_digits(minute as int)
            + ". Minute must be between 0 and 59 in '"@ + raw + "'."@,
    }
}

/// One side of a range as the ordering diagnostic restates it:
/// `H:MM` plus the resolved meridiem.
pub open spec fn resolved_text(hour: int, minute: int, pm: bool) -> Seq<char> {
    dec_digits(hour) + ":"@ + pad2(minute) + mer_text(pm)
}

/// The diagnostic message of every error variant.
pub open spec fn message_spec(e: TimeError) -> Seq<char> {
    match e {
        TimeError::Format { issue, raw } => format_message_spec(issue, raw@),
        TimeError::Value { issue, raw } => value_message_spec(issue, raw@),
        TimeError::Ambiguity { raw } => "Ambiguous time range: '"@ + raw@
            + "'. Both times must specify AM/PM, or neither should. If neither, start is assumed AM and end is assumed PM."@,
        TimeError::Ordering {
            start_raw,
            start_hour,
            start_minute,
            start_pm,
            end_raw,
            end_hour,
            end_minute,
            end_pm,
        } => "End time "@ + end_raw@ + " (interpreted as "@ + resolved_text(
            end_hour as int,
            end_minute as int,
            end_pm,
        ) + ") is before start time "@ + start_raw@ + " (interpreted as "@ + resolved_text(
            start_hour as int,
            start_minute as int,
            start_pm,
        )
            + "). The range must be within a single day and end time must be after start time."@,
        TimeError::Conversion { indicator, raw } => "Internal error or invalid AM/PM indicator: '"@
            + indicator@ + "' for time '"@ + raw@ + "'. Expected 'AM' or 'PM'."@,
    }
}

impl TimeError {
    /// Renders the human-readable diagnostic for this error.
    pub fn message(&self) -> (r: String)
        ensures
            r@ == message_spec(*self),
    {
        let mut out = String::new();
        match self {
            TimeError::Format { issue, raw } => {
                match issue {
                    FormatIssue::MeridiemOnly => {
                        out.append("Invalid time format: '");
                        out.append(raw.as_str());
                        out.append("'. Time string is too short or just an AM/PM indicator.");
                    },
                    FormatIssue::SeparatorCount => {
                        out.append("Invalid time format: '");
                        out.append(raw.as_str());
                        out.append(
                            "'. Expected H:MM or HH:MM (optionally followed by AM/PM). Missing or too many colons.",
                        );
                    },
                    FormatIssue::HourLength { part } => {
                        out.append("Invalid hour format in '");
                        out.append(raw.as_str());
                        out.append("'. Hour part '");
                        out.append(part.as_str());
                        out.append("' must be 1 or 2 digits.");
                    },
                    FormatIssue::MinuteLength { part } => {
                        out.append("Invalid minute format in '");
                        out.append(raw.as_str());
                        out.append("'. Minute part '");
                        out.append(part.as_str());
                        out.append("' must be 2 digits.");
                    },
                    FormatIssue::RangeShape => {
                        out.append("Invalid input format: '");
                        out.append(raw.as_str());
                        out.append("'. Expected format is H(H):MM[am/pm]-H(H):MM[am/pm].");
                    },
                    FormatIssue::EmptySide => {
                        out.append("Invalid input format: '");
                        out.append(raw.as_str());
                        out.append("'. Start or end time string is empty after splitting by '-'.");
                    },
                }
            },
            TimeError::Value { issue, raw } => {
                match issue {
                    ValueIssue::HourNotNumeric { part } => {
                        out.append("Invalid hour value: '");
                        out.append(part.as_str());
                        out.append("' in '");
                        out.append(raw.as_str());
                        out.append("'. Hour must be a number.");
                    },
                    ValueIssue::MinuteNotNumeric { part } => {
                        out.append("Invalid minute value: '");
                        out.append(part.as_str());
                        out.append("' in '");
                        out.append(raw.as_str());
                        out.append("'. Minute must be a number.");
                    },
                    ValueIssue::HourOutOfRange { hour } => {
                        out.append("Invalid hour: ");
                        push_u32(&mut out, *hour);
                        out.append(". Hour must be between 1 and 12 for 12-hour format in '");
                        out.append(raw.as_str());
                        out.append("'.");
                    },
                    ValueIssue::MinuteOutOfRange { minute } => {
                        out.append("Invalid minute: ");
                        push_u32(&mut out, *minute);
                        out.append(". Minute must be between 0 and 59 in '");
                        out.append(raw.as_str());
                        out.append("'.");
                    },
                }
            },
            TimeError::Ambiguity { raw } => {
                out.append("Ambiguous time range: '");
                out.append(raw.as_str());
                out.append(
                    "'. Both times must specify AM/PM, or neither should. If neither, start is assumed AM and end is assumed PM.",
                );
            },
            TimeError::Ordering {
                start_raw,
                start_hour,
                start_minute,
                start_pm,
                end_raw,
                end_hour,
                end_minute,
                end_pm,
            } => {
                out.append("End time ");
                out.append(end_raw.as_str());
                out.append(" (interpreted as ");
                push_u32(&mut out, *end_hour);
                out.append(":");
                push_u32_pad2(&mut out, *end_minute);
                out.append(if *end_pm {
                    "PM"
                } else {
                    "AM"
                });
                out.append(") is before start time ");
                out.append(start_raw.as_str());
                out.append(" (interpreted as ");
                push_u32(&mut out, *start_hour);
                out.append(":");
                push_u32_pad2(&mut out, *start_minute);
                out.append(if *start_pm {
                    "PM"
                } else {
                    "AM"
                });
                out.append(
                    "). The range must be within a single day and end time must be after start time.",
                );
            },
            TimeError::Conversion { indicator, raw } => {
                out.append("Internal error or invalid AM/PM indicator: '");
                out.append(indicator.as_str());
                out.append("' for time '");
                out.append(raw.as_str());
                out.append("'. Expected 'AM' or 'PM'.");
            },
        }
        proof {
            assert(out@ =~= message_spec(*self));
        }
        out
    }
}

} // verus!
