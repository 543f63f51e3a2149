//! Clock-time range arithmetic on loosely written 12-hour time strings.
//!
//! The library parses tokens such as `"9:00AM"`, `"09:00"` or `"10:30pm"`
//! into validated 12-hour components, converts them to minutes since
//! midnight, and computes the elapsed whole minutes of a same-day range
//! such as `"09:00AM-05:30PM"`.  Every function is specified against a
//! character-sequence model of the accepted grammar and verified with
//! Verus; callers that want hours divide the returned minutes by sixty.

pub mod chars;
pub mod convert;
pub mod digits;
pub mod errors;
pub mod laws;
pub mod parser;
pub mod range;
pub mod scan;

pub use chars::Meridiem;
pub use convert::convert_components_to_minutes;
pub use errors::{FormatIssue, TimeError, ValueIssue};
pub use parser::parse_time_components;
pub use range::calculate_time_difference_from_range_str;
