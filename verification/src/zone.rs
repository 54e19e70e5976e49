//! Time zones and the wall clock: the boundary to the time-zone database.
//!
//! A calendar day is an `i32` day number of the proleptic Gregorian calendar,
//! with 1 January of year 1 as day 1. An instant is an `i64` count of seconds
//! since the Unix epoch. What the database says of a zone is not computed
//! here: it is named by the three functions below and obtained through the
//! private functions that follow them, whose contracts are taken on trust.

use chrono::{DateTime, Datelike, NaiveDate, Offset, TimeZone, Utc};
use chrono_tz::Tz;
use vstd::prelude::*;

verus! {

/// Whether `name` is an identifier of the time-zone database.
pub uninterp spec fn zone_known(name: Seq<char>) -> bool;

/// The calendar day that the wall clock of `zone` shows at `instant`, or
/// `None` where the zone is unknown, or the instant or its local time cannot
/// be represented.
pub uninterp spec fn local_day_of(zone: Seq<char>, instant: i64) -> Option<i32>;

/// The one instant at which the wall clock of `zone` shows the given time on
/// `day`, or `None` where there is no such instant or more than one: for an
/// unknown zone, a day or a time that does not exist, a time that the clock
/// skips, and a time that it shows twice.
pub uninterp spec fn local_instant_of(
    zone: Seq<char>,
    day: i32,
    hour: u32,
    minute: u32,
    second: u32,
) -> Option<i64>;

/// Trusted: `<chrono_tz::Tz as FromStr>::from_str` succeeds exactly on the
/// identifiers that `zone_known` names.
#[verifier::external_body]
fn zone_is_known(name: &str) -> (known: bool)
    ensures
        known == zone_known(name@),
{
    name.parse::<Tz>().is_ok()
}

/// Trusted: `DateTime::with_timezone` for a `chrono_tz::Tz`. The zone is
/// looked up with `Tz::from_str`, the instant is made with
/// `DateTime::from_timestamp`, and the local date is read with
/// `NaiveDateTime::checked_add_offset` and `Datelike::num_days_from_ce`, so
/// that nothing here can panic. Where one of them fails there is no day. The
/// result depends on the arguments alone.
#[verifier::external_body]
fn local_day(zone: &str, instant: i64) -> (day: Option<i32>)
    ensures
        day == local_day_of(zone@, instant),
{
    let tz: Tz = zone.parse().ok()?;
    let local = DateTime::<Utc>::from_timestamp(instant, 0)?.with_timezone(&tz);
    let wall = local.naive_utc().checked_add_offset(local.offset().fix())?;
    Some(wall.date().num_days_from_ce())
}

/// Trusted: `TimeZone::with_ymd_and_hms` for a `chrono_tz::Tz`, followed by
/// `MappedLocalTime::single` and `DateTime::timestamp`. The zone is looked up
/// with `Tz::from_str` and the date is made with
/// `NaiveDate::from_num_days_from_ce_opt`. Where one of them fails there is
/// no instant. The result depends on the arguments alone.
#[verifier::external_body]
fn local_instant(zone: &str, day: i32, hour: u32, minute: u32, second: u32) -> (instant: Option<
    i64,
>)
    ensures
        instant == local_instant_of(zone@, day, hour, minute, second),
{
    let tz: Tz = zone.parse().ok()?;
    let date = NaiveDate::from_num_days_from_ce_opt(day)?;
    let mapped = tz.with_ymd_and_hms(date.year(), date.month(), date.day(), hour, minute, second);
    let found = mapped.single()?;
    Some(found.timestamp())
}

/// A time zone of the database, held by its identifier.
#[derive(Debug)]
pub struct Timezone {
    name: String,
}

impl View for Timezone {
    type V = Seq<char>;

    closed spec fn view(&self) -> Seq<char> {
        self.name@
    }
}

impl Timezone {
    #[verifier::type_invariant]
    spec fn known(self) -> bool {
        zone_known(self.name@)
    }

    /// Looks `name` up in the time-zone database.
    pub fn parse(name: &str) -> (zone: Option<Timezone>)
        ensures
            zone is Some <==> zone_known(name@),
            zone matches Some(z) ==> z@ == name@,
    {
        if zone_is_known(name) {
            Some(Timezone { name: String::from_str(name) })
        } else {
            None
        }
    }

    /// The identifier of the zone, which the database knows.
    pub fn name(&self) -> (name: &str)
        ensures
            name@ == self@,
            zone_known(self@),
    {
        proof {
            use_type_invariant(self);
        }
        self.name.as_str()
    }

    /// The calendar day that the wall clock of this zone shows at `instant`.
    pub fn day_at(&self, instant: i64) -> (day: Option<i32>)
        ensures
            day == local_day_of(self@, instant),
    {
        local_day(self.name.as_str(), instant)
    }

    /// The one instant at which the wall clock of this zone shows the given
    /// time on `day`.
    pub fn instant_at(&self, day: i32, hour: u32, minute: u32, second: u32) -> (instant: Option<
        i64,
    >)
        ensures
            instant == local_instant_of(self@, day, hour, minute, second),
    {
        local_instant(self.name.as_str(), day, hour, minute, second)
    }
}

impl Clone for Timezone {
    fn clone(&self) -> (copy: Self)
        ensures
            copy@ == self@,
    {
        proof {
            use_type_invariant(self);
        }
        Timezone { name: self.name.clone() }
    }
}

} // verus!
