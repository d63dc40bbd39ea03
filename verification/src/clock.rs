//! The time zone that activity timestamps are written in.
use vstd::prelude::*;

use crate::text::{chars_of, string_of, trim, trim_vec};

verus! {

/// The time zone used when none is configured, or the configured one is not
/// known.
pub const DEFAULT_TIMEZONE_NAME: &'static str = "Europe/London";

/// Whether `chrono_tz` knows the IANA time zone `name`.
pub uninterp spec fn known_timezone(name: Seq<char>) -> bool;

/// `name.parse::<chrono_tz::Tz>().is_ok()`: whether `name` is in the time
/// zone table of `chrono_tz`.
#[verifier::external_body]
fn parses_as_timezone(name: &str) -> (known: bool)
    ensures
        known == known_timezone(name@),
{
    name.parse::<chrono_tz::Tz>().is_ok()
}

/// The time zone chosen from the `COMM_TIMEZONE` setting.
#[derive(Debug)]
pub enum TimezoneChoice {
    /// No setting, or a blank one: the default.
    Default,
    /// The setting, trimmed, names a known time zone.
    Configured(String),
    /// The setting, trimmed, names no known time zone; the default is used
    /// and the caller warns about it.
    Rejected(String),
}

impl TimezoneChoice {
    /// The name of the time zone in use.
    pub open spec fn zone(self) -> Seq<char> {
        match self {
            TimezoneChoice::Configured(name) => name@,
            _ => DEFAULT_TIMEZONE_NAME@,
        }
    }
}

/// Chooses the time zone from the setting `COMM_TIMEZONE`, if it is set.
pub fn choose_timezone(setting: Option<&str>) -> (choice: TimezoneChoice)
    ensures
        match setting {
            None => choice is Default,
            Some(s) => if trim(s@).len() == 0 {
                choice is Default
            } else if known_timezone(trim(s@)) {
                choice matches TimezoneChoice::Configured(name) && name@ == trim(s@)
            } else {
                choice matches TimezoneChoice::Rejected(name) && name@ == trim(s@)
            },
        },
{
    let s = match setting {
        Some(s) => s,
        None => return TimezoneChoice::Default,
    };
    let trimmed = trim_vec(&chars_of(s));
    if trimmed.len() == 0 {
        return TimezoneChoice::Default;
    }
    let name = string_of(&trimmed);
    if parses_as_timezone(name.as_str()) {
        TimezoneChoice::Configured(name)
    } else {
        TimezoneChoice::Rejected(name)
    }
}

/// The time `utc_seconds` after the Unix epoch, in time zone `zone`, as
/// `chrono` writes it with `%Y-%m-%d %H:%M:%S`; `None` when `chrono` cannot
/// represent that time or `chrono_tz` does not know the zone.
pub uninterp spec fn local_time_text(utc_seconds: i64, zone: Seq<char>) -> Option<Seq<char>>;

/// `DateTime::from_timestamp`, `with_timezone` to the parsed `zone`, and
/// `format("%Y-%m-%d %H:%M:%S")`.  The contract names the result.
#[verifier::external_body]
fn format_local_time(utc_seconds: i64, zone: &str) -> (text: Option<String>)
    ensures
        match text {
            Some(t) => local_time_text(utc_seconds, zone@) == Some(t@),
            None => local_time_text(utc_seconds, zone@) is None,
        },
{
    let tz = zone.parse::<chrono_tz::Tz>().ok()?;
    let time = chrono::DateTime::from_timestamp(utc_seconds, 0)?;
    Some(time.with_timezone(&tz).format("%Y-%m-%d %H:%M:%S").to_string())
}

/// The timestamp of an activity log line for the time `utc_seconds` after
/// the Unix epoch, in the chosen time zone.
pub fn activity_timestamp_at(utc_seconds: i64, choice: &TimezoneChoice) -> (text: Option<String>)
    ensures
        match text {
            Some(t) => local_time_text(utc_seconds, choice.zone()) == Some(t@),
            None => local_time_text(utc_seconds, choice.zone()) is None,
        },
{
    match choice {
        TimezoneChoice::Configured(name) => format_local_time(utc_seconds, name.as_str()),
        _ => format_local_time(utc_seconds, DEFAULT_TIMEZONE_NAME),
    }
}

} // verus!
