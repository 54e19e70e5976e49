//! Calendar days by number, and what the calendar says of them.
//!
//! A calendar day is an `i32` day number of the proleptic Gregorian calendar,
//! with 1 January of year 1 as day 1. The calendar itself is not computed
//! here: what it says is named by the functions below and obtained through
//! the functions that follow them, whose contracts are taken on trust.

use chrono::{Datelike, NaiveDate};
use vstd::prelude::*;

verus! {

/// The year, the month from 1 to 12 and the day of the month from 1 to 31 of
/// a calendar day, or `None` for a day number that the calendar does not
/// reach.
pub uninterp spec fn civil_date_of(day: i32) -> Option<(i32, u32, u32)>;

/// A calendar day written after `format`, in which `%B` stands for the
/// English name of the month and `%-d` for the day of the month without
/// padding, so that `%B %-d` gives `March 7`. `None` for a day number that
/// the calendar does not reach, and for a format that cannot be followed.
pub uninterp spec fn formatted_day_of(day: i32, format: Seq<char>) -> Option<Seq<char>>;

/// The number of the calendar day with the given year, month and day of the
/// month, or `None` where there is no such day.
pub uninterp spec fn day_number_of(year: i32, month: u32, day: u32) -> Option<i32>;

/// Trusted: `NaiveDate::from_num_days_from_ce_opt`, read with
/// `Datelike::year`, `Datelike::month` and `Datelike::day`. The result
/// depends on the argument alone.
#[verifier::external_body]
pub(crate) fn civil_date(day: i32) -> (date: Option<(i32, u32, u32)>)
    ensures
        date == civil_date_of(day),
{
    let date = NaiveDate::from_num_days_from_ce_opt(day)?;
    Some((date.year(), date.month(), date.day()))
}

/// Trusted: `NaiveDate::format`, on the date that
/// `NaiveDate::from_num_days_from_ce_opt` makes, written out with
/// `DelayedFormat::write_to`, which fails on a format that cannot be
/// followed where `to_string` would panic. The result depends on the
/// arguments alone.
#[verifier::external_body]
pub(crate) fn formatted_day(day: i32, format: &str) -> (text: Option<String>)
    ensures
        match formatted_day_of(day, format@) {
            Some(written) => text is Some && text->0@ == written,
            None => text is None,
        },
{
    let date = NaiveDate::from_num_days_from_ce_opt(day)?;
    let mut text = String::new();
    date.format(format).write_to(&mut text).ok()?;
    Some(text)
}

/// Trusted: `NaiveDate::from_ymd_opt`, read with
/// `Datelike::num_days_from_ce`. The result depends on the arguments alone.
#[verifier::external_body]
pub(crate) fn day_number(year: i32, month: u32, day: u32) -> (number: Option<i32>)
    ensures
        number == day_number_of(year, month, day),
{
    let date = NaiveDate::from_ymd_opt(year, month, day)?;
    Some(date.num_days_from_ce())
}

} // verus!
