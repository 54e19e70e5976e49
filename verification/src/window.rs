//! The range of days that a request shows.

use crate::calendar::{civil_date, civil_date_of, day_number, day_number_of};
use crate::error::{DateBoundary, RenderError};
use crate::params::option_text;
use crate::settings::TRAILING_WINDOW_SECONDS;
use crate::text::chars_of;
use crate::utils::is_digit;
use crate::zone::{local_day_of, local_instant_of, Timezone};
use vstd::prelude::*;

verus! {

/// A range of calendar days in a time zone, both ends included, with the
/// first second of its first day and the last second of its last day.
#[derive(Clone, Copy, Debug, PartialEq, Eq, Structural)]
pub struct DateWindow {
    pub first_day: i32,
    pub last_day: i32,
    pub start: i64,
    pub end: i64,
}

/// Which days a request asks for.
#[derive(Clone, Copy, Debug, PartialEq, Eq, Structural)]
pub enum YearChoice {
    /// The day that lies 365 times 24 hours back, and every day since.
    Trailing,
    /// The calendar year of today.
    Current,
    /// A calendar year.
    Year(i32),
}

/// The number that four digits write.
pub open spec fn four_digit_value(text: Seq<char>) -> int {
    (text[0] as u32 - 0x30) * 1000 + (text[1] as u32 - 0x30) * 100 + (text[2] as u32 - 0x30) * 10
        + (text[3] as u32 - 0x30)
}

/// What the `year` of a request asks for: nothing where it is absent, the
/// current year for the word `current`, a year for exactly four digits.
/// Anything else is refused.
pub open spec fn year_choice_of(year: Option<Seq<char>>) -> Option<YearChoice> {
    match year {
        None => Some(YearChoice::Trailing),
        Some(text) => if text == "current"@ {
            Some(YearChoice::Current)
        } else if text.len() == 4 && is_digit(text[0]) && is_digit(text[1]) && is_digit(text[2])
            && is_digit(text[3]) {
            Some(YearChoice::Year(four_digit_value(text) as i32))
        } else {
            None
        },
    }
}

/// The value of a decimal digit.
fn digit_value(c: char) -> (value: Option<i32>)
    ensures
        value is Some <==> is_digit(c),
        value matches Some(digit) ==> digit == c as u32 - 0x30,
{
    let code: u32 = c as u32;
    if 0x30 <= code && code <= 0x39 {
        Some((code - 0x30) as i32)
    } else {
        None
    }
}

/// Reads the `year` of a request.
pub fn parse_year(year: &Option<String>) -> (choice: Result<YearChoice, RenderError>)
    ensures
        match year_choice_of(option_text(*year)) {
            Some(asked) => choice == Ok::<YearChoice, RenderError>(asked),
            None => choice == Err::<YearChoice, RenderError>(RenderError::InvalidYear),
        },
{
    match year {
        None => Ok(YearChoice::Trailing),
        Some(text) => {
            if crate::text::same_text(text.as_str(), "current") {
                return Ok(YearChoice::Current);
            }
            let chars = chars_of(text.as_str());
            if chars.len() != 4 {
                return Err(RenderError::InvalidYear);
            }
            let thousands = digit_value(chars[0]);
            let hundreds = digit_value(chars[1]);
            let tens = digit_value(chars[2]);
            let units = digit_value(chars[3]);
            if thousands.is_none() || hundreds.is_none() || tens.is_none() || units.is_none() {
                return Err(RenderError::InvalidYear);
            }
            let value: i32 = thousands.unwrap() * 1000 + hundreds.unwrap() * 100 + tens.unwrap()
                * 10 + units.unwrap();
            Ok(YearChoice::Year(value))
        },
    }
}

/// The first and the last day of a calendar year.
pub open spec fn year_days_of(year: i32) -> Result<(i32, i32), RenderError> {
    match day_number_of(year, 1, 1) {
        None => Err(RenderError::DateResolution(DateBoundary::Start)),
        Some(first) => match day_number_of(year, 12, 31) {
            None => Err(RenderError::DateResolution(DateBoundary::End)),
            Some(last) => Ok((first, last)),
        },
    }
}

/// The first and the last day that a request asks for, at the instant `now`
/// in the zone `zone`.
///
/// Without a year the range ends today and starts on the day on which the
/// instant 365 times 24 hours before `now` falls.
pub open spec fn window_days_of(zone: Seq<char>, asked: YearChoice, now: i64) -> Result<
    (i32, i32),
    RenderError,
> {
    match asked {
        YearChoice::Year(year) => year_days_of(year),
        YearChoice::Current => match local_day_of(zone, now) {
            None => Err(RenderError::DateResolution(DateBoundary::End)),
            Some(today) => match civil_date_of(today) {
                None => Err(RenderError::DateResolution(DateBoundary::End)),
                Some(date) => year_days_of(date.0),
            },
        },
        YearChoice::Trailing => match local_day_of(zone, now) {
            None => Err(RenderError::DateResolution(DateBoundary::End)),
            Some(today) => if now - TRAILING_WINDOW_SECONDS < i64::MIN {
                Err(RenderError::DateResolution(DateBoundary::Start))
            } else {
                match local_day_of(zone, (now - TRAILING_WINDOW_SECONDS) as i64) {
                    None => Err(RenderError::DateResolution(DateBoundary::Start)),
                    Some(first) => Ok((first, today)),
                }
            },
        },
    }
}

/// The range from `first_day` to `last_day` with its first and its last
/// second: midnight on the wall clock of the first day, and 23:59:59 of the
/// last.
pub open spec fn window_between(zone: Seq<char>, first_day: i32, last_day: i32) -> Result<
    DateWindow,
    RenderError,
> {
    match local_instant_of(zone, first_day, 0, 0, 0) {
        None => Err(RenderError::DateResolution(DateBoundary::Start)),
        Some(start) => match local_instant_of(zone, last_day, 23, 59, 59) {
            None => Err(RenderError::DateResolution(DateBoundary::End)),
            Some(end) => Ok(DateWindow { first_day, last_day, start, end }),
        },
    }
}

/// The range of days that a request asks for.
pub open spec fn window_of(zone: Seq<char>, asked: YearChoice, now: i64) -> Result<
    DateWindow,
    RenderError,
> {
    match window_days_of(zone, asked, now) {
        Err(error) => Err(error),
        Ok((first_day, last_day)) => window_between(zone, first_day, last_day),
    }
}

/// Finds the first and the last day of a calendar year.
pub fn year_days(year: i32) -> (days: Result<(i32, i32), RenderError>)
    ensures
        days == year_days_of(year),
{
    match day_number(year, 1, 1) {
        None => Err(RenderError::DateResolution(DateBoundary::Start)),
        Some(first) => match day_number(year, 12, 31) {
            None => Err(RenderError::DateResolution(DateBoundary::End)),
            Some(last) => Ok((first, last)),
        },
    }
}

/// Places the range from `first_day` to `last_day` in time.
pub fn window_from_days(tz: &Timezone, first_day: i32, last_day: i32) -> (window: Result<
    DateWindow,
    RenderError,
>)
    ensures
        window == window_between(tz@, first_day, last_day),
{
    match tz.instant_at(first_day, 0, 0, 0) {
        None => Err(RenderError::DateResolution(DateBoundary::Start)),
        Some(start) => match tz.instant_at(last_day, 23, 59, 59) {
            None => Err(RenderError::DateResolution(DateBoundary::End)),
            Some(end) => Ok(DateWindow { first_day, last_day, start, end }),
        },
    }
}

/// Finds the range of days that a request asks for, at the instant `now`.
pub fn resolve_window(tz: &Timezone, asked: YearChoice, now: i64) -> (window: Result<
    DateWindow,
    RenderError,
>)
    ensures
        window == window_of(tz@, asked, now),
{
    let days = match asked {
        YearChoice::Year(year) => year_days(year),
        YearChoice::Current => match tz.day_at(now) {
            None => Err(RenderError::DateResolution(DateBoundary::End)),
            Some(today) => match civil_date(today) {
                None => Err(RenderError::DateResolution(DateBoundary::End)),
                Some(date) => year_days(date.0),
            },
        },
        YearChoice::Trailing => match tz.day_at(now) {
            None => Err(RenderError::DateResolution(DateBoundary::End)),
            Some(today) => if now < i64::MIN + TRAILING_WINDOW_SECONDS {
                Err(RenderError::DateResolution(DateBoundary::Start))
            } else {
                match tz.day_at(now - TRAILING_WINDOW_SECONDS) {
                    None => Err(RenderError::DateResolution(DateBoundary::Start)),
                    Some(first) => Ok((first, today)),
                }
            },
        },
    };
    match days {
        Err(error) => Err(error),
        Ok((first_day, last_day)) => window_from_days(tz, first_day, last_day),
    }
}

} // verus!
