//! Calendar parsing and formatting, done by chrono.
use vstd::prelude::*;
use chrono::Datelike;
use crate::note::{Timestamp, moment_key, moment_key_of};

verus! {

/// What chrono's `NaiveDate::parse_from_str(s, "%Y-%m-%d")` reads from `s`, as
/// `(year, month, day)`, or `None` where it rejects `s`.
pub uninterp spec fn parsed_day_of(s: Seq<char>) -> Option<(int, int, int)>;

/// What chrono prints for the given date and time, taken as UTC, shown at a fixed
/// offset of `offset` seconds east, with the pattern `%Y-%m-%d %H:%M:%S`.
pub uninterp spec fn time_text(
    year: int,
    month: int,
    day: int,
    hour: int,
    minute: int,
    second: int,
    offset: int,
) -> Seq<char>;

/// Earliest year chrono's `NaiveDate` holds.
pub const CHRONO_MIN_YEAR: i32 = -262143;

/// Latest year chrono's `NaiveDate` holds.
pub const CHRONO_MAX_YEAR: i32 = 262142;

/// Relies on chrono's `NaiveDate::parse_from_str` with the pattern `%Y-%m-%d`, and
/// on `Datelike` to read the parsed date back; a `NaiveDate` is always a real
/// calendar date within chrono's range of years.
#[verifier::external_body]
pub(crate) fn parse_day(s: &str) -> (r: Option<(i32, u32, u32)>)
    ensures
        match r {
            Some((y, m, d)) => parsed_day_of(s@) == Some((y as int, m as int, d as int))
                && CHRONO_MIN_YEAR <= y <= CHRONO_MAX_YEAR && 1 <= m <= 12 && 1 <= d
                <= crate::note::days_in_month(y as int, m as int),
            None => parsed_day_of(s@) is None,
        },
{
    match chrono::NaiveDate::parse_from_str(s, "%Y-%m-%d") {
        Ok(date) => Some((date.year(), date.month(), date.day())),
        Err(_) => None,
    }
}

/// Relies on chrono: builds the `NaiveDateTime` of `t`, takes it as UTC, moves it to
/// the fixed offset `offset` (seconds east) and formats it as `%Y-%m-%d %H:%M:%S`.
/// `NaiveDate::from_ymd_opt`, `and_hms_opt` and `FixedOffset::east_opt` succeed on
/// the values `requires` admits.
#[verifier::external_body]
pub(crate) fn format_time(t: &Timestamp, offset: i32) -> (r: String)
    requires
        t.wf(),
        -86400 < offset < 86400,
    ensures
        r@ == time_text(
            t.year as int,
            t.month as int,
            t.day as int,
            t.hour as int,
            t.minute as int,
            t.second as int,
            offset as int,
        ),
{
    let date = chrono::NaiveDate::from_ymd_opt(t.year, t.month, t.day).unwrap();
    let naive = date.and_hms_opt(t.hour, t.minute, t.second).unwrap();
    let zone = chrono::FixedOffset::east_opt(offset).unwrap();
    naive.and_utc().with_timezone(&zone).format("%Y-%m-%d %H:%M:%S").to_string()
}

/// The inclusive bounds of a day written `YYYY-MM-DD`, as moment keys of its first
/// and last second. `None` only where chrono does not read the text as a date.
pub fn day_bounds(s: &str) -> (r: Option<(i64, i64)>)
    ensures
        match parsed_day_of(s@) {
            Some((y, m, d)) => r matches Some((lo, hi)) && lo as int == moment_key(y, m, d, 0, 0, 0)
                && hi as int == moment_key(y, m, d, 23, 59, 59),
            None => r is None,
        },
{
    match parse_day(s) {
        Some((y, m, d)) => Some((moment_key_of(y, m, d, 0, 0, 0), moment_key_of(y, m, d, 23, 59, 59))),
        None => None,
    }
}

} // verus!
