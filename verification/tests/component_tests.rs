//! Tests for the time-component parser and the meridiem converter.

use time_duration_calculator::{
    convert_components_to_minutes, parse_time_components, FormatIssue, TimeError, ValueIssue,
};

#[test]
fn test_parse_time_components_valid() {
    assert_eq!(
        parse_time_components("09:00AM"),
        Ok((9, 0, Some("AM".to_string())))
    );
    assert_eq!(
        parse_time_components("9:00am"),
        Ok((9, 0, Some("AM".to_string())))
    );
    assert_eq!(
        parse_time_components("12:30PM"),
        Ok((12, 30, Some("PM".to_string())))
    );
    assert_eq!(
        parse_time_components("01:15pm"),
        Ok((1, 15, Some("PM".to_string())))
    );
    assert_eq!(parse_time_components("09:00"), Ok((9, 0, None)));
    assert_eq!(parse_time_components("9:00"), Ok((9, 0, None)));
    assert_eq!(parse_time_components("12:00"), Ok((12, 0, None)));
    assert_eq!(
        parse_time_components(" 07:00AM "),
        Ok((7, 0, Some("AM".to_string())))
    ); // With spaces
    assert_eq!(parse_time_components("7:00"), Ok((7, 0, None)));
}

#[test]
fn test_parse_time_components_invalid_format() {
    assert!(parse_time_components("900AM").is_err()); // Missing colon
    assert!(parse_time_components("09:00XM").is_err()); // Invalid AM/PM
    assert!(parse_time_components("09:00PMM").is_err()); // Invalid AM/PM (too long)
    assert!(parse_time_components("090:00AM").is_err()); // Hour too long
    assert!(parse_time_components("09:0AM").is_err()); // Minute too short
    assert!(parse_time_components("09:000AM").is_err()); // Minute too long
    assert!(parse_time_components(":00AM").is_err()); // Missing hour
    assert!(parse_time_components("09:AM").is_err()); // Missing minute
    assert!(parse_time_components("9").is_err());
    assert!(parse_time_components("9AM").is_err()); // Needs colon
    assert!(parse_time_components("AM").is_err());
    assert!(parse_time_components("").is_err());
    assert!(parse_time_components("10:30 AM").is_err()); // Space before AM/PM
}

#[test]
fn test_parse_time_components_invalid_values() {
    assert!(parse_time_components("00:00AM").is_err()); // Hour 00 invalid
    assert!(parse_time_components("13:00AM").is_err()); // Hour 13 invalid
    assert!(parse_time_components("09:60AM").is_err()); // Minute 60 invalid
    assert!(parse_time_components("AA:00AM").is_err()); // Hour not a number
    assert!(parse_time_components("09:BBAM").is_err()); // Minute not a number
}

#[test]
fn test_convert_components_to_minutes_valid() {
    assert_eq!(
        convert_components_to_minutes(9, 0, "AM", "9:00AM"),
        Ok(9 * 60)
    );
    assert_eq!(
        convert_components_to_minutes(12, 0, "AM", "12:00AM"),
        Ok(0 * 60)
    ); // Midnight
    assert_eq!(
        convert_components_to_minutes(12, 30, "AM", "12:30AM"),
        Ok(30)
    );
    assert_eq!(
        convert_components_to_minutes(1, 15, "AM", "01:15AM"),
        Ok(1 * 60 + 15)
    );
    assert_eq!(
        convert_components_to_minutes(5, 30, "PM", "05:30PM"),
        Ok(17 * 60 + 30)
    );
    assert_eq!(
        convert_components_to_minutes(12, 0, "PM", "12:00PM"),
        Ok(12 * 60)
    ); // Noon
    assert_eq!(
        convert_components_to_minutes(12, 45, "PM", "12:45PM"),
        Ok(12 * 60 + 45)
    );
    assert_eq!(
        convert_components_to_minutes(1, 0, "PM", "01:00PM"),
        Ok(13 * 60)
    );
    assert_eq!(
        convert_components_to_minutes(11, 59, "PM", "11:59PM"),
        Ok(23 * 60 + 59)
    );
}

#[test]
fn round_trip_every_valid_time() {
    // Every valid hour, minute and meridiem, written the way the
    // grammar accepts it, parses back to exactly its own components.
    for hour in 1..=12u32 {
        for minute in 0..=59u32 {
            for meridiem in ["AM", "PM"] {
                let token = format!("{}:{:02}{}", hour, minute, meridiem);
                assert_eq!(
                    parse_time_components(&token),
                    Ok((hour, minute, Some(meridiem.to_string())))
                );
            }
        }
    }
}

#[test]
fn meridiem_offset_is_twelve_hours() {
    // For every hour short of twelve, the PM reading lies 720 minutes
    // after the AM reading.
    for hour in 1..=11u32 {
        let am = convert_components_to_minutes(hour, 30, "AM", "x").unwrap();
        let pm = convert_components_to_minutes(hour, 30, "PM", "x").unwrap();
        assert_eq!(pm - am, 720);
    }
}

#[test]
fn midnight_and_noon_boundaries() {
    assert_eq!(convert_components_to_minutes(12, 0, "AM", "12:00AM"), Ok(0));
    assert_eq!(
        convert_components_to_minutes(12, 0, "PM", "12:00PM"),
        Ok(720)
    );
}

#[test]
fn conversion_error_on_unknown_indicator() {
    let err = convert_components_to_minutes(9, 0, "XM", "9:00XM").unwrap_err();
    assert_eq!(
        err,
        TimeError::Conversion {
            indicator: "XM".to_string(),
            raw: "9:00XM".to_string(),
        }
    );
    assert_eq!(
        err.message(),
        "Internal error or invalid AM/PM indicator: 'XM' for time '9:00XM'. \
         Expected 'AM' or 'PM'."
    );
    // A lowercase indicator is also a contract violation: the parser
    // only ever emits uppercase markers.
    assert!(convert_components_to_minutes(9, 0, "am", "9:00am").is_err());
}

#[test]
fn parse_value_error_variants() {
    assert_eq!(
        parse_time_components("13:00AM").unwrap_err(),
        TimeError::Value {
            issue: ValueIssue::HourOutOfRange { hour: 13 },
            raw: "13:00AM".to_string(),
        }
    );
    assert_eq!(
        parse_time_components("00:00AM").unwrap_err(),
        TimeError::Value {
            issue: ValueIssue::HourOutOfRange { hour: 0 },
            raw: "00:00AM".to_string(),
        }
    );
    assert_eq!(
        parse_time_components("09:60AM").unwrap_err(),
        TimeError::Value {
            issue: ValueIssue::MinuteOutOfRange { minute: 60 },
            raw: "09:60AM".to_string(),
        }
    );
    assert_eq!(
        parse_time_components("AA:00AM").unwrap_err(),
        TimeError::Value {
            issue: ValueIssue::HourNotNumeric {
                part: "AA".to_string()
            },
            raw: "AA:00AM".to_string(),
        }
    );
    // In "09:BBAM" the letter before the marker keeps the suffix in
    // the minute field, so the non-numeric minute shows up only once
    // the field has a valid two-character shape.
    assert_eq!(
        parse_time_components("09:BB").unwrap_err(),
        TimeError::Value {
            issue: ValueIssue::MinuteNotNumeric {
                part: "BB".to_string()
            },
            raw: "09:BB".to_string(),
        }
    );
    assert_eq!(
        parse_time_components("09:BBAM").unwrap_err(),
        TimeError::Format {
            issue: FormatIssue::MinuteLength {
                part: "BBAM".to_string()
            },
            raw: "09:BBAM".to_string(),
        }
    );
}

#[test]
fn parse_format_error_variants() {
    assert_eq!(
        parse_time_components("AM").unwrap_err(),
        TimeError::Format {
            issue: FormatIssue::MeridiemOnly,
            raw: "AM".to_string(),
        }
    );
    assert_eq!(
        parse_time_components("").unwrap_err(),
        TimeError::Format {
            issue: FormatIssue::SeparatorCount,
            raw: "".to_string(),
        }
    );
    assert_eq!(
        parse_time_components("9").unwrap_err(),
        TimeError::Format {
            issue: FormatIssue::SeparatorCount,
            raw: "9".to_string(),
        }
    );
    assert_eq!(
        parse_time_components("090:00AM").unwrap_err(),
        TimeError::Format {
            issue: FormatIssue::HourLength {
                part: "090".to_string()
            },
            raw: "090:00AM".to_string(),
        }
    );
    assert_eq!(
        parse_time_components("09:0AM").unwrap_err(),
        TimeError::Format {
            issue: FormatIssue::MinuteLength {
                part: "0".to_string()
            },
            raw: "09:0AM".to_string(),
        }
    );
}

#[test]
fn format_error_messages_are_rendered() {
    assert_eq!(
        parse_time_components("090:00AM").unwrap_err().message(),
        "Invalid hour format in '090:00AM'. Hour part '090' must be 1 or 2 digits."
    );
    assert_eq!(
        parse_time_components("13:00AM").unwrap_err().message(),
        "Invalid hour: 13. Hour must be between 1 and 12 for 12-hour format in '13:00AM'."
    );
    assert_eq!(
        parse_time_components("09:60AM").unwrap_err().message(),
        "Invalid minute: 60. Minute must be between 0 and 59 in '09:60AM'."
    );
}

#[test]
fn lookback_guard_rejects_a_letter_before_the_marker() {
    // A letter right before the marker means the marker is not taken
    // as a suffix, so the whole text stays in the minute field and the
    // failure is a format error about its length, not a value error.
    assert_eq!(
        parse_time_components("9:0AAM").unwrap_err(),
        TimeError::Format {
            issue: FormatIssue::MinuteLength {
                part: "0AAM".to_string()
            },
            raw: "9:0AAM".to_string(),
        }
    );
}

#[test]
fn lookback_guard_is_permissive_for_punctuation() {
    // A non-alphabetic, non-digit character before the marker does not
    // disqualify the suffix: the marker is stripped and the remaining
    // minute field fails as non-numeric.
    assert_eq!(
        parse_time_components("9:0.AM").unwrap_err(),
        TimeError::Value {
            issue: ValueIssue::MinuteNotNumeric {
                part: "0.".to_string()
            },
            raw: "9:0.AM".to_string(),
        }
    );
}

#[test]
fn unicode_whitespace_is_trimmed() {
    assert_eq!(
        parse_time_components("\u{00A0}9:00AM\u{2003}"),
        Ok((9, 0, Some("AM".to_string())))
    );
    assert_eq!(parse_time_components("\t10:15\n"), Ok((10, 15, None)));
}
