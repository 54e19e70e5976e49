//! Recorded spans and the per-day totals that they add up to.

use std::collections::HashMap;
use vstd::prelude::*;

verus! {

broadcast use vstd::std_specs::hash::group_hash_axioms;

/// One interval of recorded activity, in whole seconds.
///
/// The start and the end of a span may fall between two seconds. Each is
/// held twice: cut to the whole second towards zero, which decides the
/// calendar day on which it falls, and as the nearest whole second inside
/// the span, which decides whether the span touches a range of days. The
/// end may lie before the start. `duration` is the amount that is spread
/// over the days, rounded to whole seconds, and is told on its own.
#[derive(Clone, Copy, Debug, PartialEq, Eq, Structural)]
pub struct Span {
    /// The start, in seconds since the Unix epoch, without its fraction.
    pub start_time: i64,
    /// The end, in seconds since the Unix epoch, without its fraction.
    pub end_time: i64,
    /// The seconds of activity.
    pub duration: i64,
    /// The first whole second that is not before the start.
    pub start_bound: i64,
    /// The last whole second that is not after the end.
    pub end_bound: i64,
}

impl Span {
    /// A span that starts and ends on whole seconds.
    pub fn whole(start_time: i64, end_time: i64, duration: i64) -> (span: Span)
        ensures
            span == (Span {
                start_time,
                end_time,
                duration,
                start_bound: start_time,
                end_bound: end_time,
            }),
    {
        Span { start_time, end_time, duration, start_bound: start_time, end_bound: end_time }
    }
}

/// A count of seconds as a bucket holds it: nothing below zero, and no more
/// than a `u32` can hold.
pub open spec fn whole_seconds(amount: int) -> u32 {
    if amount <= 0 {
        0
    } else if amount >= u32::MAX {
        u32::MAX
    } else {
        amount as u32
    }
}

/// The seconds that `buckets` holds for `day`: an absent day holds none.
pub open spec fn seconds_on(buckets: Map<i32, u32>, day: i32) -> u32 {
    if buckets.contains_key(day) {
        buckets[day]
    } else {
        0
    }
}

/// `buckets` after `amount` seconds were added to `day`. The day is present
/// afterwards, even where `amount` is zero, and its total stops at
/// `u32::MAX`.
pub open spec fn credited(buckets: Map<i32, u32>, day: i32, amount: u32) -> Map<i32, u32> {
    buckets.insert(day, whole_seconds(seconds_on(buckets, day) + amount))
}

/// Brings a signed count of seconds into the range of a bucket.
pub fn clamp_seconds(amount: i128) -> (seconds: u32)
    ensures
        seconds == whole_seconds(amount as int),
{
    if amount <= 0 {
        0
    } else if amount >= u32::MAX as i128 {
        u32::MAX
    } else {
        amount as u32
    }
}

/// Accumulated seconds of activity per calendar day.
pub struct DayBuckets {
    seconds: HashMap<i32, u32>,
}

impl View for DayBuckets {
    type V = Map<i32, u32>;

    closed spec fn view(&self) -> Map<i32, u32> {
        self.seconds@
    }
}

impl DayBuckets {
    /// No day has any activity.
    pub fn new() -> (buckets: Self)
        ensures
            buckets@ == Map::<i32, u32>::empty(),
    {
        DayBuckets { seconds: HashMap::new() }
    }

    /// The seconds recorded for `day`, zero where it was never touched.
    pub fn get(&self, day: i32) -> (seconds: u32)
        ensures
            seconds == seconds_on(self@, day),
    {
        match self.seconds.get(&day) {
            Some(found) => *found,
            None => 0,
        }
    }

    /// Whether some span has touched `day`.
    pub fn contains(&self, day: i32) -> (touched: bool)
        ensures
            touched == self@.contains_key(day),
    {
        self.seconds.contains_key(&day)
    }

    /// Adds `amount` seconds to `day`.
    pub fn add(&mut self, day: i32, amount: u32)
        ensures
            final(self)@ == credited(old(self)@, day, amount),
    {
        let before = self.get(day);
        self.seconds.insert(day, before.saturating_add(amount));
    }
}

} // verus!
