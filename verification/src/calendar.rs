//! The local calendar, as the menu texts need it.
//!
//! What day, month and year an instant falls on in the machine's time zone,
//! and how its date and time are written, is `chrono`'s work; how far away it
//! is in words is `humantime_fmt`'s. Everything in this module is taken on
//! trust. Nothing is claimed of what a result holds where that depends on the
//! time zone or on the clock. `None` stands for an instant that
//! `chrono::DateTime::from_timestamp` rejects: in the calendar range that is an
//! instant whose nanoseconds reach two thousand million, or a thousand million
//! outside the last second of a minute. Every other call here always returns.
//!
//! `chrono` may panic on a local time at the far ends of its range, so every
//! instant has to be in the calendar range.

use crate::instant::Instant;
use chrono::Datelike;
use vstd::prelude::*;

verus! {

/// The layout of a time of day in hours and minutes, as in "06:00".
pub const LAYOUT_TIME_OF_DAY: &'static str = "%H:%M";

/// The layout of the full name of a weekday, as in "Monday".
pub const LAYOUT_WEEKDAY: &'static str = "%A";

/// The layout of the short name of a month, as in "Jan".
pub const LAYOUT_MONTH: &'static str = "%b";

/// Whether `layout` is one of the three layouts that the menu texts use.
pub open spec fn is_known_layout(layout: Seq<char>) -> bool {
    layout == LAYOUT_TIME_OF_DAY@ || layout == LAYOUT_WEEKDAY@ || layout == LAYOUT_MONTH@
}

/// Calls `DateTime::format` on `at` in the local time zone, and writes the
/// result out.
///
/// Writing out a layout that `chrono` cannot parse panics, so `layout` has to
/// be one of the three known ones.
#[verifier::external_body]
pub(crate) fn local_text(at: &Instant, layout: &str) -> (text: Option<String>)
    requires
        at.in_calendar_range(),
        is_known_layout(layout@),
    ensures
        text is Some <==> at.is_calendar_time(),
{
    let utc = chrono::DateTime::from_timestamp(at.secs, at.nanos)?;
    Some(utc.with_timezone(&chrono::Local).format(layout).to_string())
}

/// Calls `NaiveDate::signed_duration_since` on the local dates of `at` and of
/// `today`: the whole days from the date of `today` to the date of `at`,
/// negative where `at` falls on an earlier date.
#[verifier::external_body]
pub(crate) fn local_days_between(at: &Instant, today: &Instant) -> (days: Option<i64>)
    requires
        at.in_calendar_range(),
        today.in_calendar_range(),
    ensures
        days is Some <==> (at.is_calendar_time() && today.is_calendar_time()),
{
    let at = chrono::DateTime::from_timestamp(at.secs, at.nanos)?;
    let today = chrono::DateTime::from_timestamp(today.secs, today.nanos)?;
    let date = at.with_timezone(&chrono::Local).date_naive();
    let base = today.with_timezone(&chrono::Local).date_naive();
    Some(date.signed_duration_since(base).num_days())
}

/// Calls `Datelike::day` on `at` in the local time zone: the day of the
/// month, which `chrono` documents to range from 1 to 31.
#[verifier::external_body]
pub(crate) fn local_day(at: &Instant) -> (day: Option<u32>)
    requires
        at.in_calendar_range(),
    ensures
        day is Some <==> at.is_calendar_time(),
        day matches Some(d) ==> 1 <= d <= 31,
{
    let utc = chrono::DateTime::from_timestamp(at.secs, at.nanos)?;
    Some(utc.with_timezone(&chrono::Local).day())
}

/// Calls `Datelike::year` on `at` in the local time zone.
#[verifier::external_body]
pub(crate) fn local_year(at: &Instant) -> (year: Option<i32>)
    requires
        at.in_calendar_range(),
    ensures
        year is Some <==> at.is_calendar_time(),
{
    let utc = chrono::DateTime::from_timestamp(at.secs, at.nanos)?;
    Some(utc.with_timezone(&chrono::Local).year())
}

/// Calls `humantime_fmt::format_relative` on `at`: how far `at` is from the
/// system clock's time, in words such as "in 3 weeks".
#[verifier::external_body]
pub(crate) fn relative_text(at: &Instant) -> (text: Option<String>)
    requires
        at.in_calendar_range(),
    ensures
        text is Some <==> at.is_calendar_time(),
{
    let utc = chrono::DateTime::from_timestamp(at.secs, at.nanos)?;
    Some(humantime_fmt::format_relative(std::time::SystemTime::from(utc)))
}

} // verus!
