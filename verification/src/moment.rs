//! Points in time, as milliseconds since the epoch, and calendar days.

use vstd::prelude::*;

use crate::fault::{admin, invalid, ProviderAdminError, ProviderAdminErrorKind};
use crate::text::text_of;

verus! {

/// The first millisecond of the calendar, in the year -262143.
pub const EARLIEST_MS: i64 = -8_334_601_228_800_000;

/// The last millisecond of the calendar, in the year 262142.
pub const LATEST_MS: i64 = 8_210_266_876_799_999;

/// A number of milliseconds that names a point of the calendar.
pub open spec fn is_moment(ms: i64) -> bool {
    EARLIEST_MS <= ms <= LATEST_MS
}

/// An optional point in time names a point of the calendar where it is given.
pub open spec fn is_optional_moment(ms: Option<i64>) -> bool {
    ms matches Some(ms) ==> is_moment(ms)
}

/// The text of a point in time.
pub uninterp spec fn moment_text(ms: i64) -> Seq<char>;

/// The number of the day that a text names, counted from the first day of the year 1.
pub uninterp spec fn parsed_day(text: Seq<char>) -> Option<i32>;

/// The text of the day with a number.
pub uninterp spec fn day_text(day: i32) -> Option<Seq<char>>;

/// Calls `chrono::DateTime::from_timestamp_millis`, which gives a point in time for the
/// milliseconds of the calendar that chrono can hold and nothing for all others.
#[verifier::external_body]
pub(crate) fn is_timestamp(ms: i64) -> (r: bool)
    ensures
        r == is_moment(ms),
{
    chrono::DateTime::from_timestamp_millis(ms).is_some()
}

/// Calls `chrono::DateTime::to_rfc3339_opts` on a point in time, with as many digits of the second
/// as it needs and `Z` for the offset; the text is named [`moment_text`].
#[verifier::external_body]
pub(crate) fn write_moment(ms: i64) -> (text: String)
    requires
        is_moment(ms),
    ensures
        text@ == moment_text(ms),
{
    chrono::DateTime::from_timestamp_millis(ms)
        .unwrap_or_default()
        .to_rfc3339_opts(chrono::SecondsFormat::AutoSi, true)
}

/// Calls `chrono::NaiveDate::parse_from_str` with the format `%Y-%m-%d`; the number of the day that
/// it reads is named [`parsed_day`].
#[verifier::external_body]
pub(crate) fn read_day(text: &str) -> (day: Option<i32>)
    ensures
        day == parsed_day(text@),
{
    chrono::NaiveDate::parse_from_str(text, "%Y-%m-%d")
        .ok()
        .map(|date| chrono::Datelike::num_days_from_ce(&date))
}

/// Prints the `chrono::NaiveDate` with a number; the text is named [`day_text`].
#[verifier::external_body]
pub(crate) fn write_day(day: i32) -> (text: Option<String>)
    ensures
        text_of(text) == day_text(day),
{
    chrono::NaiveDate::from_num_days_from_ce_opt(day).map(|date| date.to_string())
}

/// An optional point in time, as it is, where it names a point of the calendar.
pub fn timestamp(value: Option<i64>) -> (result: Result<Option<i64>, ProviderAdminError>)
    ensures
        result == (if is_optional_moment(value) {
            Ok::<Option<i64>, ProviderAdminError>(value)
        } else {
            Err(admin(ProviderAdminErrorKind::Invalid))
        }),
{
    match value {
        None => Ok(None),
        Some(ms) => if is_timestamp(ms) {
            Ok(Some(ms))
        } else {
            Err(invalid())
        },
    }
}

/// A point in time is one of the calendar from the first millisecond of the year -262143 to the last
/// of the year 262142, both included.
pub proof fn calendar_has_ends(ms: i64)
    ensures
        is_moment(ms) <==> -8_334_601_228_800_000 <= ms && ms < 8_210_266_876_800_000,
        is_optional_moment(Some(ms)) <==> is_moment(ms),
        is_optional_moment(None),
{
}

} // verus!
