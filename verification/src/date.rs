//! Calendar dates, modelled as day numbers.
//!
//! The core reasons about a date only as its day number in the proleptic
//! Gregorian calendar (day 1 = January 1 of year 1, as chrono counts).
//! Window arithmetic is then plain integer arithmetic and is verified;
//! the conversions between day numbers and calendar notation, and the
//! reading of the clock, are chrono's and stand behind trusted wrappers.

use vstd::prelude::*;
use chrono::Datelike;

verus! {

/// A calendar date, as its day number in the proleptic Gregorian calendar
/// (day 1 = January 1 of year 1).
#[derive(Clone, Copy, PartialEq, Eq, Structural, Debug)]
pub struct Date {
    pub day: i64,
}

/// The day number chrono assigns to a calendar date `year-month-day`:
/// what `chrono::NaiveDate::from_ymd_opt` followed by
/// `Datelike::num_days_from_ce` returns.
pub uninterp spec fn day_number_from_ymd(year: int, month: int, day: int) -> int;

/// The text chrono prints for the date with the given day number under the
/// `%Y-%m-%d` format.
pub uninterp spec fn iso_date_of(day: int) -> Seq<char>;

/// Relies on `chrono::NaiveDate::from_ymd_opt` to recognise the calendar
/// date and on `chrono::Datelike::num_days_from_ce` to count its days;
/// both depend on the arguments alone.
#[verifier::external_body]
pub fn date_from_ymd(year: i32, month: u32, day: u32) -> (r: Option<Date>)
    ensures
        r is Some ==> r->Some_0.day == day_number_from_ymd(
            year as int,
            month as int,
            day as int,
        ),
{
    match chrono::NaiveDate::from_ymd_opt(year, month, day) {
        Some(d) => Some(Date { day: d.num_days_from_ce() as i64 }),
        None => None,
    }
}

/// Relies on `chrono::NaiveDate::from_num_days_from_ce_opt`, the documented
/// inverse of `num_days_from_ce` (`None` only when the day number lies
/// outside chrono's range of about 262000 years around the common era),
/// and on chrono's `%Y-%m-%d` formatting, which depends on the date alone.
#[verifier::external_body]
pub fn day_number_to_iso(date: &Date) -> (r: Option<String>)
    ensures
        r is Some ==> r->Some_0@ == iso_date_of(date.day as int),
        -3000000 <= date.day <= 3000000 ==> r is Some,
{
    let small: i32 = match i32::try_from(date.day) {
        Ok(v) => v,
        Err(_) => return None,
    };
    match chrono::NaiveDate::from_num_days_from_ce_opt(small) {
        Some(d) => Some(d.format("%Y-%m-%d").to_string()),
        None => None,
    }
}

/// Relies on `chrono::Local::now` for the local calendar date of this
/// instant and on `chrono::Datelike::num_days_from_ce` for its day
/// number; the result depends on the clock and the time zone, so nothing
/// is claimed of it.
#[verifier::external_body]
pub fn current_date() -> Date {
    Date { day: chrono::Local::now().date_naive().num_days_from_ce() as i64 }
}

} // verus!
