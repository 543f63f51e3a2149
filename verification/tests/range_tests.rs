//! Tests for the range-difference calculator: the elapsed minutes it
//! returns are checked here as fractional hours, minutes divided by
//! sixty, which is how callers present them.

use time_duration_calculator::{
    calculate_time_difference_from_range_str, FormatIssue, TimeError,
};

fn hours(range: &str) -> Result<f64, TimeError> {
    calculate_time_difference_from_range_str(range).map(|mins| mins as f64 / 60.0)
}

#[test]
fn test_calculate_difference_explicit_ampm() {
    assert_eq!(hours("09:00AM-05:30PM"), Ok(8.5));
    assert_eq!(hours("9:00AM-5:30PM"), Ok(8.5));
    assert_eq!(hours("10:00AM-10:00AM"), Ok(0.0));
    assert_eq!(hours("12:00AM-11:59PM"), Ok(1439.0 / 60.0));
    assert_eq!(hours("01:00PM-05:00PM"), Ok(4.0));
    assert_eq!(hours("1:00PM-5:00PM"), Ok(4.0));
    assert_eq!(hours("11:00AM-01:00PM"), Ok(2.0));
    assert_eq!(hours(" 11:00AM - 01:00PM "), Ok(2.0)); // with spaces
}

#[test]
fn test_calculate_difference_implicit_ampm() {
    assert_eq!(hours("09:00-05:30"), Ok(8.5)); // 9AM to 5:30PM
    assert_eq!(hours("9:00-5:30"), Ok(8.5)); // 9AM to 5:30PM
    assert_eq!(hours("10:00-02:00"), Ok(4.0)); // 10AM to 2PM
    assert_eq!(hours("12:00-11:59"), Ok(1439.0 / 60.0)); // 12AM to 11:59PM
    assert_eq!(hours("01:00-05:00"), Ok(16.0)); // 1AM to 5PM
    assert_eq!(hours("11:00-01:00"), Ok(2.0)); // 11AM to 1PM
}

#[test]
fn test_calculate_difference_mixed_ampm_error() {
    assert!(calculate_time_difference_from_range_str("09:00AM-05:00").is_err());
    assert!(calculate_time_difference_from_range_str("09:00-05:00PM").is_err());
}

#[test]
fn test_calculate_difference_invalid_range_explicit_ampm() {
    assert!(calculate_time_difference_from_range_str("05:00PM-09:00AM").is_err());
    assert!(calculate_time_difference_from_range_str("10:00AM-09:00AM").is_err());
}

#[test]
fn test_calculate_difference_invalid_range_implicit_ampm() {
    // 5:00 (AM) - 9:00 (PM) -> This is valid: 16 hours
    assert_eq!(hours("05:00-09:00"), Ok(16.0));
    // 10:00 (AM) - 09:00 (PM) -> This is valid: 11 hours
    assert_eq!(hours("10:00-09:00"), Ok(11.0));
    // However, if the interpretation leads to start_minutes > end_minutes,
    // it should fail. Example: "12:00PM-10:00AM" (explicit) -> error
    assert!(calculate_time_difference_from_range_str("12:00PM-10:00AM").is_err());
}

#[test]
fn test_calculate_difference_invalid_input_format() {
    assert!(calculate_time_difference_from_range_str("invalid-input").is_err());
    assert!(calculate_time_difference_from_range_str("09:00AM").is_err()); // Missing second part
    assert!(calculate_time_difference_from_range_str("09:00AM-").is_err());
    assert!(calculate_time_difference_from_range_str("-05:00PM").is_err());
    assert!(calculate_time_difference_from_range_str("09:00AM - ").is_err());
    // Empty second part after trim
}

#[test]
fn test_calculate_difference_propagates_parse_error() {
    assert!(calculate_time_difference_from_range_str("09:70AM-05:00PM").is_err()); // Invalid minute in first
    assert!(calculate_time_difference_from_range_str("09:00AM-05:70PM").is_err()); // Invalid minute in second
    assert!(calculate_time_difference_from_range_str("13:00AM-05:00PM").is_err()); // Invalid hour in first
    assert!(calculate_time_difference_from_range_str("13:00-05:00").is_err());
    // Invalid hour in first (implicit)
}

#[test]
fn test_end_time_before_start_time_error_message() {
    let result = calculate_time_difference_from_range_str("05:00PM-09:00AM");
    assert!(result.is_err());
    if let Err(e) = result {
        assert!(e.message().contains(
            "End time 09:00AM (interpreted as 9:00AM) is before start time 05:00PM (interpreted as 5:00PM)"
        ));
    }

    let result_implicit = calculate_time_difference_from_range_str("10:00PM-02:00AM"); // This should be an error
    assert!(result_implicit.is_err());
    if let Err(e) = result_implicit {
        // 10:00PM -> 22*60 = 1320. 02:00AM -> 2*60 = 120. 120 < 1320.
        assert!(e.message().contains(
            "End time 02:00AM (interpreted as 2:00AM) is before start time 10:00PM (interpreted as 10:00PM)"
        ));
    }
}

#[test]
fn workday_range_in_exact_minutes() {
    // The verified result itself is whole minutes since the start.
    assert_eq!(
        calculate_time_difference_from_range_str("09:00AM-05:30PM"),
        Ok(510)
    );
    assert_eq!(
        calculate_time_difference_from_range_str("9:00-5:30"),
        Ok(510)
    );
    assert_eq!(
        calculate_time_difference_from_range_str("12:00AM-11:59PM"),
        Ok(1439)
    );
}

#[test]
fn ambiguity_error_variant() {
    assert_eq!(
        calculate_time_difference_from_range_str("09:00AM-05:00").unwrap_err(),
        TimeError::Ambiguity {
            raw: "09:00AM-05:00".to_string()
        }
    );
    assert_eq!(
        calculate_time_difference_from_range_str("09:00-05:00PM").unwrap_err(),
        TimeError::Ambiguity {
            raw: "09:00-05:00PM".to_string()
        }
    );
}

#[test]
fn ordering_error_variant() {
    assert_eq!(
        calculate_time_difference_from_range_str("05:00PM-09:00AM").unwrap_err(),
        TimeError::Ordering {
            start_raw: "05:00PM".to_string(),
            start_hour: 5,
            start_minute: 0,
            start_pm: true,
            end_raw: "09:00AM".to_string(),
            end_hour: 9,
            end_minute: 0,
            end_pm: false,
        }
    );
    // An implicit AM..PM reading can still run backwards over midnight
    // and is rejected rather than wrapped into the next day.
    assert!(matches!(
        calculate_time_difference_from_range_str("10:00PM-02:00AM"),
        Err(TimeError::Ordering { .. })
    ));
}

#[test]
fn range_shape_error_variants() {
    assert_eq!(
        calculate_time_difference_from_range_str("09:00AM").unwrap_err(),
        TimeError::Format {
            issue: FormatIssue::RangeShape,
            raw: "09:00AM".to_string(),
        }
    );
    // Two dashes are as bad as none.
    assert!(matches!(
        calculate_time_difference_from_range_str("9:00-5:00-6:00"),
        Err(TimeError::Format {
            issue: FormatIssue::RangeShape,
            ..
        })
    ));
    assert_eq!(
        calculate_time_difference_from_range_str("09:00AM- ").unwrap_err(),
        TimeError::Format {
            issue: FormatIssue::EmptySide,
            raw: "09:00AM- ".to_string(),
        }
    );
}

#[test]
fn propagated_parse_error_names_the_failing_side() {
    // The side's own raw token is carried in the propagated error.
    let err = calculate_time_difference_from_range_str("09:70AM-05:00PM").unwrap_err();
    assert_eq!(
        err.message(),
        "Invalid minute: 70. Minute must be between 0 and 59 in '09:70AM'."
    );
    let err = calculate_time_difference_from_range_str("09:00AM-05:70PM").unwrap_err();
    assert_eq!(
        err.message(),
        "Invalid minute: 70. Minute must be between 0 and 59 in '05:70PM'."
    );
}
