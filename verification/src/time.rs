//! Spreading recorded spans over the calendar days of a time zone.

use crate::buckets::{clamp_seconds, credited, seconds_on, whole_seconds, DayBuckets, Span};
use crate::text::{decimal, decimal_string};
use crate::zone::{local_day_of, local_instant_of, Timezone};
use vstd::prelude::*;

verus! {

/// Where a walk stands after the day that ends at `day_end`: at the next
/// second, on the calendar day of that second. There is no next stand where
/// that second cannot be placed on a later day.
pub open spec fn next_stand(zone: Seq<char>, day: i32, day_end: i64) -> Option<(i64, i32)> {
    if day_end < i64::MAX {
        match local_day_of(zone, (day_end + 1) as i64) {
            Some(next) => if next > day {
                Some(((day_end + 1) as i64, next))
            } else {
                None
            },
            None => None,
        }
    } else {
        None
    }
}

/// The last second of `day`, 23:59:59 on the wall clock, for a walk that
/// stands at the instant `at`. There is none where that second cannot be
/// resolved, or lies before `at`.
pub open spec fn day_end_of(zone: Seq<char>, at: i64, day: i32) -> Option<i64> {
    match local_instant_of(zone, day, 23, 59, 59) {
        Some(day_end) => if day_end >= at {
            Some(day_end)
        } else {
            None
        },
        None => None,
    }
}

/// How many days lie between `day` and a later `last_day`.
pub open spec fn days_left(day: i32, last_day: i32) -> nat {
    if day < last_day {
        (last_day - day) as nat
    } else {
        0
    }
}

/// The days that a span covers before `last_day`, walking forward from the
/// instant `at` on `day`: each with the seconds from where the walk stands in
/// it to its last second, 23:59:59 on the wall clock, that second included.
/// The walk ends early at a day whose last second cannot be resolved, or
/// lies before the instant at which the walk stands: every day of a walk has
/// at least one second.
pub open spec fn walk_of(zone: Seq<char>, at: i64, day: i32, last_day: i32) -> Seq<(i32, int)>
    decreases days_left(day, last_day),
{
    if day >= last_day {
        Seq::empty()
    } else {
        match day_end_of(zone, at, day) {
            None => Seq::empty(),
            Some(day_end) => {
                let here = (day, day_end - at + 1);
                match next_stand(zone, day, day_end) {
                    Some((next_at, next_day)) => seq![here] + walk_of(
                        zone,
                        next_at,
                        next_day,
                        last_day,
                    ),
                    None => seq![here],
                }
            },
        }
    }
}

/// The days of a walk, in order.
pub open spec fn days_walked(walk: Seq<(i32, int)>) -> Seq<i32> {
    Seq::new(walk.len(), |i: int| walk[i].0)
}

/// The lengths in seconds of the days of a walk, in order.
pub open spec fn lengths_walked(walk: Seq<(i32, int)>) -> Seq<int> {
    Seq::new(walk.len(), |i: int| walk[i].1)
}

/// The smaller of two counts.
pub open spec fn smaller(a: int, b: int) -> int {
    if a <= b {
        a
    } else {
        b
    }
}

/// How `duration` seconds are shared out over days of the given lengths and
/// one last day. Each day receives what is left of the duration, but no more
/// than its length and nothing below zero; what is left then shrinks by the
/// whole length. The last day receives what is left after all the others,
/// whatever its own length.
pub open spec fn shares_of(duration: int, lengths: Seq<int>) -> Seq<u32>
    decreases lengths.len(),
{
    if lengths.len() == 0 {
        seq![whole_seconds(duration)]
    } else {
        seq![whole_seconds(smaller(lengths[0], duration))] + shares_of(
            duration - lengths[0],
            lengths.skip(1),
        )
    }
}

/// The sum of a sequence of shares.
pub open spec fn total_of(shares: Seq<u32>) -> int
    decreases shares.len(),
{
    if shares.len() == 0 {
        0
    } else {
        shares[0] + total_of(shares.skip(1))
    }
}

/// `buckets` after each share was added to the day that stands at the same
/// place in `days`, first to last.
pub open spec fn credited_all(buckets: Map<i32, u32>, days: Seq<i32>, shares: Seq<u32>) -> Map<
    i32,
    u32,
>
    decreases days.len(),
{
    if days.len() == 0 || shares.len() == 0 {
        buckets
    } else {
        credited_all(credited(buckets, days[0], shares[0]), days.skip(1), shares.skip(1))
    }
}

/// `buckets` after a span that starts on `start_day` and ends on another day
/// was spread over the days from the one to the other.
pub open spec fn split_across_days(
    buckets: Map<i32, u32>,
    zone: Seq<char>,
    span: Span,
    start_day: i32,
    end_day: i32,
) -> Map<i32, u32> {
    let walk = walk_of(zone, span.start_time, start_day, end_day);
    credited_all(
        buckets,
        days_walked(walk).push(end_day),
        shares_of(span.duration as int, lengths_walked(walk)),
    )
}

/// `buckets` after one span was counted. A span whose start or end cannot be
/// placed on a calendar day is left out. One that starts and ends on the same
/// day adds its whole duration to that day.
pub open spec fn after_span(buckets: Map<i32, u32>, zone: Seq<char>, span: Span) -> Map<i32, u32> {
    match (local_day_of(zone, span.start_time), local_day_of(zone, span.end_time)) {
        (Some(start_day), Some(end_day)) => if start_day == end_day {
            credited(buckets, start_day, whole_seconds(span.duration as int))
        } else {
            split_across_days(buckets, zone, span, start_day, end_day)
        },
        _ => buckets,
    }
}

/// One step of a walk: crediting the first day and going on from the next
/// stand gives what crediting the whole walk gives.
proof fn lemma_walk_step(
    buckets: Map<i32, u32>,
    zone: Seq<char>,
    at: i64,
    day: i32,
    last_day: i32,
    remaining: int,
)
    requires
        day < last_day,
        day_end_of(zone, at, day) is Some,
    ensures
        ({
            let day_end = day_end_of(zone, at, day)->0;
            let in_day = day_end - at + 1;
            let after = credited(buckets, day, whole_seconds(smaller(in_day, remaining)));
            let walk = walk_of(zone, at, day, last_day);
            let whole = credited_all(
                buckets,
                days_walked(walk).push(last_day),
                shares_of(remaining, lengths_walked(walk)),
            );
            match next_stand(zone, day, day_end) {
                Some((next_at, next_day)) => {
                    let rest = walk_of(zone, next_at, next_day, last_day);
                    whole == credited_all(
                        after,
                        days_walked(rest).push(last_day),
                        shares_of(remaining - in_day, lengths_walked(rest)),
                    )
                },
                None => whole == credited(after, last_day, whole_seconds(remaining - in_day)),
            }
        }),
{
    let day_end = day_end_of(zone, at, day)->0;
    let in_day = day_end - at + 1;
    let walk = walk_of(zone, at, day, last_day);
    let days = days_walked(walk).push(last_day);
    let lengths = lengths_walked(walk);
    let shares = shares_of(remaining, lengths);
    let after = credited(buckets, day, whole_seconds(smaller(in_day, remaining)));
    assert(walk.len() > 0 && walk[0] == (day, in_day));
    assert(lengths.len() > 0 && lengths[0] == in_day);
    assert(days[0] == day);
    assert(shares[0] == whole_seconds(smaller(in_day, remaining)));
    assert(shares.skip(1) =~= shares_of(remaining - in_day, lengths.skip(1)));
    match next_stand(zone, day, day_end) {
        Some((next_at, next_day)) => {
            let rest = walk_of(zone, next_at, next_day, last_day);
            assert(walk =~= seq![(day, in_day)] + rest);
            assert(days.skip(1) =~= days_walked(rest).push(last_day));
            assert(lengths.skip(1) =~= lengths_walked(rest));
        },
        None => {
            assert(walk =~= seq![(day, in_day)]);
            assert(days.skip(1) =~= seq![last_day]);
            assert(lengths.skip(1) =~= Seq::<int>::empty());
            let tail_shares = shares_of(remaining - in_day, Seq::<int>::empty());
            assert(tail_shares =~= seq![whole_seconds(remaining - in_day)]);
            assert(credited_all(after, seq![last_day], tail_shares) == credited(
                after,
                last_day,
                tail_shares[0],
            )) by {
                assert(seq![last_day].skip(1).len() == 0);
                reveal_with_fuel(credited_all, 2);
            }
        },
    }
}

/// A walk that cannot start credits everything to the last day.
proof fn lemma_walk_end(
    buckets: Map<i32, u32>,
    zone: Seq<char>,
    at: i64,
    day: i32,
    last_day: i32,
    remaining: int,
)
    requires
        day >= last_day || day_end_of(zone, at, day) is None,
    ensures
        ({
            let walk = walk_of(zone, at, day, last_day);
            credited_all(
                buckets,
                days_walked(walk).push(last_day),
                shares_of(remaining, lengths_walked(walk)),
            ) == credited(buckets, last_day, whole_seconds(remaining))
        }),
{
    let walk = walk_of(zone, at, day, last_day);
    assert(walk =~= Seq::<(i32, int)>::empty());
    let days = days_walked(walk).push(last_day);
    let shares = shares_of(remaining, lengths_walked(walk));
    assert(days =~= seq![last_day]);
    assert(lengths_walked(walk) =~= Seq::<int>::empty());
    assert(shares =~= seq![whole_seconds(remaining)]);
    assert(days.skip(1).len() == 0);
    reveal_with_fuel(credited_all, 2);
}

/// What a day with `seconds_in_day` seconds left receives of a duration of
/// which `remaining` seconds are still to be shared out.
pub fn day_share(seconds_in_day: i128, remaining: i128) -> (share: u32)
    ensures
        share == whole_seconds(smaller(seconds_in_day as int, remaining as int)),
{
    if seconds_in_day <= remaining {
        clamp_seconds(seconds_in_day)
    } else {
        clamp_seconds(remaining)
    }
}

/// Spreads the duration of a span that starts on `start_day` and ends on
/// `end_day`, walking forward one local day at a time from its start.
pub fn split_span_across_days(
    span: &Span,
    start_day: i32,
    end_day: i32,
    tz: &Timezone,
    day_buckets: &mut DayBuckets,
)
    ensures
        final(day_buckets)@ == split_across_days(old(day_buckets)@, tz@, *span, start_day, end_day),
{
    let ghost target = split_across_days(day_buckets@, tz@, *span, start_day, end_day);
    let mut at: i64 = span.start_time;
    let mut day: i32 = start_day;
    let mut remaining: i128 = span.duration as i128;
    let mut walking: bool = true;
    while walking && day < end_day
        invariant
            start_day <= day,
            walking ==> -(0x8000_0000_0000_0000 + (day - start_day) * 0x2_0000_0000_0000_0000)
                <= remaining <= 0x8000_0000_0000_0000 + (day - start_day)
                * 0x2_0000_0000_0000_0000,
            walking ==> credited_all(
                day_buckets@,
                days_walked(walk_of(tz@, at, day, end_day)).push(end_day),
                shares_of(remaining as int, lengths_walked(walk_of(tz@, at, day, end_day))),
            ) == target,
            !walking ==> credited(day_buckets@, end_day, whole_seconds(remaining as int))
                == target,
        decreases days_left(day, end_day) + (if walking { 1nat } else { 0nat }),
    {
        proof {
            if day_end_of(tz@, at, day) is Some {
                lemma_walk_step(day_buckets@, tz@, at, day, end_day, remaining as int);
            } else {
                lemma_walk_end(day_buckets@, tz@, at, day, end_day, remaining as int);
            }
        }
        let found = tz.instant_at(day, 23, 59, 59);
        if found.is_none() || found.unwrap() < at {
            walking = false;
        } else {
            let day_end: i64 = found.unwrap();
            let in_day: i128 = day_end as i128 - at as i128 + 1;
            let share = day_share(in_day, remaining);
            day_buckets.add(day, share);
            remaining = remaining - in_day;
            if day_end == i64::MAX {
                walking = false;
            } else {
                let next_at: i64 = day_end + 1;
                let next = tz.day_at(next_at);
                if next.is_some() && next.unwrap() > day {
                    at = next_at;
                    day = next.unwrap();
                } else {
                    walking = false;
                }
            }
        }
    }
    proof {
        if walking {
            lemma_walk_end(day_buckets@, tz@, at, day, end_day, remaining as int);
        }
    }
    day_buckets.add(end_day, clamp_seconds(remaining));
}

/// Counts one span: adds its duration to the calendar days that it touches in
/// the zone `tz`.
pub fn process_span_into_buckets(span: &Span, tz: &Timezone, day_buckets: &mut DayBuckets)
    ensures
        final(day_buckets)@ == after_span(old(day_buckets)@, tz@, *span),
{
    let start = tz.day_at(span.start_time);
    let end = tz.day_at(span.end_time);
    if start.is_none() || end.is_none() {
        return;
    }
    let start_day: i32 = start.unwrap();
    let end_day: i32 = end.unwrap();
    if start_day == end_day {
        day_buckets.add(start_day, clamp_seconds(span.duration as i128));
    } else {
        split_span_across_days(span, start_day, end_day, tz, day_buckets);
    }
}

/// There is one share for each day of the given lengths, and one for the
/// last day.
pub proof fn lemma_shares_count(duration: int, lengths: Seq<int>)
    ensures
        shares_of(duration, lengths).len() == lengths.len() + 1,
    decreases lengths.len(),
{
    if lengths.len() > 0 {
        lemma_shares_count(duration - lengths[0], lengths.skip(1));
    }
}

/// The shares of a span over several days add up to its duration: nothing
/// is lost and nothing is counted twice, provided that no day has a negative
/// length and that the duration fits a bucket. A negative duration adds
/// nothing.
pub proof fn lemma_shares_add_up(duration: int, lengths: Seq<int>)
    requires
        duration <= u32::MAX,
        forall|i: int| 0 <= i < lengths.len() ==> lengths[i] >= 0,
    ensures
        total_of(shares_of(duration, lengths)) == whole_seconds(duration),
    decreases lengths.len(),
{
    let shares = shares_of(duration, lengths);
    if lengths.len() == 0 {
        assert(shares.skip(1).len() == 0);
        assert(total_of(shares.skip(1)) == 0);
    } else {
        let rest = shares_of(duration - lengths[0], lengths.skip(1));
        assert forall|i: int| 0 <= i < lengths.skip(1).len() implies lengths.skip(1)[i] >= 0 by {
            assert(lengths.skip(1)[i] == lengths[i + 1]);
        }
        lemma_shares_add_up(duration - lengths[0], lengths.skip(1));
        assert(shares.skip(1) =~= rest);
    }
}

/// No day before the last receives more than its length.
pub proof fn lemma_share_within_day(duration: int, lengths: Seq<int>, i: int)
    requires
        0 <= i < lengths.len(),
        lengths[i] >= 0,
    ensures
        shares_of(duration, lengths)[i] <= lengths[i],
    decreases lengths.len(),
{
    lemma_shares_count(duration, lengths);
    if i > 0 {
        let rest = shares_of(duration - lengths[0], lengths.skip(1));
        lemma_shares_count(duration - lengths[0], lengths.skip(1));
        lemma_share_within_day(duration - lengths[0], lengths.skip(1), i - 1);
        assert(shares_of(duration, lengths)[i] == rest[i - 1]);
    }
}

/// A span that starts and ends on the same local day adds exactly its
/// duration to that day, as far as a bucket can hold it, and leaves every
/// other day as it was.
pub proof fn lemma_single_day_span(buckets: Map<i32, u32>, zone: Seq<char>, span: Span, day: i32)
    requires
        local_day_of(zone, span.start_time) == Some(day),
        local_day_of(zone, span.end_time) == Some(day),
    ensures
        seconds_on(buckets, day) + whole_seconds(span.duration as int) <= u32::MAX ==> seconds_on(
            after_span(buckets, zone, span),
            day,
        ) == seconds_on(buckets, day) + whole_seconds(span.duration as int),
        0 <= span.duration <= u32::MAX - seconds_on(buckets, day) ==> seconds_on(
            after_span(buckets, zone, span),
            day,
        ) == seconds_on(buckets, day) + span.duration,
        forall|other: i32|
            other != day ==> seconds_on(after_span(buckets, zone, span), other) == seconds_on(
                buckets,
                other,
            ),
        after_span(buckets, zone, span).dom() == buckets.dom().insert(day),
{
}

/// The days of a walk rise from one to the next, none comes before the day
/// on which the walk starts, all come before the last day, and each has at
/// least one second.
pub proof fn lemma_walk_rises(zone: Seq<char>, at: i64, day: i32, last_day: i32)
    ensures
        forall|i: int|
            0 <= i < walk_of(zone, at, day, last_day).len() ==> (#[trigger] walk_of(
                zone,
                at,
                day,
                last_day,
            )[i]).1 >= 1,
        forall|i: int|
            0 <= i < walk_of(zone, at, day, last_day).len() ==> day <= (#[trigger] walk_of(
                zone,
                at,
                day,
                last_day,
            )[i]).0 < last_day,
        forall|i: int, j: int|
            0 <= i < j < walk_of(zone, at, day, last_day).len() ==> (#[trigger] walk_of(
                zone,
                at,
                day,
                last_day,
            )[i]).0 < (#[trigger] walk_of(zone, at, day, last_day)[j]).0,
    decreases days_left(day, last_day),
{
    let walk = walk_of(zone, at, day, last_day);
    if day < last_day {
        match day_end_of(zone, at, day) {
            None => {},
            Some(day_end) => {
                match next_stand(zone, day, day_end) {
                    Some((next_at, next_day)) => {
                        let rest = walk_of(zone, next_at, next_day, last_day);
                        lemma_walk_rises(zone, next_at, next_day, last_day);
                        assert(walk =~= seq![(day, day_end - at + 1)] + rest);
                        assert forall|i: int| 0 <= i < walk.len() implies (
                        #[trigger] walk[i]).1 >= 1 by {
                            if i > 0 {
                                assert(walk[i] == rest[i - 1]);
                            }
                        }
                        assert forall|i: int| 0 <= i < walk.len() implies day <= (
                        #[trigger] walk[i]).0 < last_day by {
                            if i > 0 {
                                assert(walk[i] == rest[i - 1]);
                            }
                        }
                        assert forall|i: int, j: int| 0 <= i < j < walk.len() implies (
                        #[trigger] walk[i]).0 < (#[trigger] walk[j]).0 by {
                            assert(walk[j] == rest[j - 1]);
                            if i > 0 {
                                assert(walk[i] == rest[i - 1]);
                            }
                        }
                    },
                    None => {},
                }
            },
        }
    }
}

/// Crediting shares leaves every day alone that is not among the days
/// credited.
pub proof fn lemma_credited_all_elsewhere(
    buckets: Map<i32, u32>,
    days: Seq<i32>,
    shares: Seq<u32>,
    other: i32,
)
    requires
        forall|i: int| 0 <= i < days.len() ==> days[i] != other,
    ensures
        seconds_on(credited_all(buckets, days, shares), other) == seconds_on(buckets, other),
        credited_all(buckets, days, shares).contains_key(other) == buckets.contains_key(other),
    decreases days.len(),
{
    if days.len() > 0 && shares.len() > 0 {
        assert(days[0] != other);
        assert forall|i: int| 0 <= i < days.skip(1).len() implies days.skip(1)[i] != other by {
            assert(days.skip(1)[i] == days[i + 1]);
        }
        lemma_credited_all_elsewhere(
            credited(buckets, days[0], shares[0]),
            days.skip(1),
            shares.skip(1),
            other,
        );
    }
}

/// Where no day is credited twice, each day has its share added to what it
/// held, as far as a bucket can hold it.
pub proof fn lemma_credited_all_each(
    buckets: Map<i32, u32>,
    days: Seq<i32>,
    shares: Seq<u32>,
    i: int,
)
    requires
        days.len() == shares.len(),
        0 <= i < days.len(),
        forall|a: int, b: int| 0 <= a < b < days.len() ==> days[a] != days[b],
    ensures
        seconds_on(credited_all(buckets, days, shares), days[i]) == whole_seconds(
            seconds_on(buckets, days[i]) + shares[i],
        ),
    decreases days.len(),
{
    let after = credited(buckets, days[0], shares[0]);
    let later_days = days.skip(1);
    let later_shares = shares.skip(1);
    if i == 0 {
        assert forall|k: int| 0 <= k < later_days.len() implies later_days[k] != days[0] by {
            assert(later_days[k] == days[k + 1]);
        }
        lemma_credited_all_elsewhere(after, later_days, later_shares, days[0]);
    } else {
        assert forall|a: int, b: int| 0 <= a < b < later_days.len() implies later_days[a]
            != later_days[b] by {
            assert(later_days[a] == days[a + 1] && later_days[b] == days[b + 1]);
        }
        assert(later_days[i - 1] == days[i] && later_shares[i - 1] == shares[i]);
        lemma_credited_all_each(after, later_days, later_shares, i - 1);
        assert(days[0] != days[i]);
    }
}

/// The sum of a sequence of lengths.
pub open spec fn sum_of(lengths: Seq<int>) -> int
    decreases lengths.len(),
{
    if lengths.len() == 0 {
        0
    } else {
        lengths[0] + sum_of(lengths.skip(1))
    }
}

/// The rule of the shares: a day before the last receives what is left of
/// the duration after the days before it, but no more than its own length
/// and nothing below zero; the last day receives what is left after all the
/// others, with no upper limit but that of a bucket.
pub proof fn lemma_share_rule(duration: int, lengths: Seq<int>, i: int)
    requires
        0 <= i <= lengths.len(),
    ensures
        shares_of(duration, lengths).len() == lengths.len() + 1,
        i < lengths.len() ==> shares_of(duration, lengths)[i] == whole_seconds(
            smaller(lengths[i], duration - sum_of(lengths.take(i))),
        ),
        i == lengths.len() ==> shares_of(duration, lengths)[i] == whole_seconds(
            duration - sum_of(lengths),
        ),
    decreases lengths.len(),
{
    lemma_shares_count(duration, lengths);
    if lengths.len() == 0 {
    } else if i == 0 {
        assert(lengths.take(0).len() == 0);
    } else {
        let later = lengths.skip(1);
        lemma_shares_count(duration - lengths[0], later);
        lemma_share_rule(duration - lengths[0], later, i - 1);
        assert(shares_of(duration, lengths)[i] == shares_of(duration - lengths[0], later)[i - 1]);
        assert(lengths.take(i).skip(1) =~= later.take(i - 1));
        assert(lengths.take(i)[0] == lengths[0]);
        if i == lengths.len() {
            assert(lengths.take(i) =~= lengths);
            assert(later.take(i - 1) =~= later);
        } else {
            assert(later[i - 1] == lengths[i]);
        }
    }
}

/// By how much the days `days` have grown together from `before` to
/// `after`.
pub open spec fn growth_of(before: Map<i32, u32>, after: Map<i32, u32>, days: Seq<i32>) -> int
    decreases days.len(),
{
    if days.len() == 0 {
        0
    } else {
        seconds_on(after, days[0]) - seconds_on(before, days[0]) + growth_of(
            before,
            after,
            days.skip(1),
        )
    }
}

/// Days that have each grown by their share have grown together by the sum
/// of the shares.
pub proof fn lemma_growth_is_total(
    before: Map<i32, u32>,
    after: Map<i32, u32>,
    days: Seq<i32>,
    shares: Seq<u32>,
)
    requires
        days.len() == shares.len(),
        forall|i: int|
            0 <= i < days.len() ==> seconds_on(after, #[trigger] days[i]) == seconds_on(
                before,
                days[i],
            ) + shares[i],
    ensures
        growth_of(before, after, days) == total_of(shares),
    decreases days.len(),
{
    if days.len() > 0 {
        assert forall|i: int| 0 <= i < days.skip(1).len() implies seconds_on(
            after,
            #[trigger] days.skip(1)[i],
        ) == seconds_on(before, days.skip(1)[i]) + shares.skip(1)[i] by {
            assert(days.skip(1)[i] == days[i + 1] && shares.skip(1)[i] == shares[i + 1]);
        }
        lemma_growth_is_total(before, after, days.skip(1), shares.skip(1));
    }
}

/// A span over several days gives each day that it touches one share of its
/// duration, and leaves every other day alone.
///
/// The days touched are those of the walk, in rising order, and then the
/// day on which the span ends. Each day of the walk has at least one second
/// and receives what is left of the duration, but no more than its seconds;
/// the end day receives what is left after all. Each share is added to its
/// day, which holds the sum unless that is more than a bucket can hold. The
/// shares add up to the duration, where the duration itself fits a bucket;
/// a negative duration adds nothing. So the days touched grow together by
/// exactly the duration, where no bucket overflows.
pub proof fn lemma_multi_day_span(
    buckets: Map<i32, u32>,
    zone: Seq<char>,
    span: Span,
    start_day: i32,
    end_day: i32,
)
    requires
        local_day_of(zone, span.start_time) == Some(start_day),
        local_day_of(zone, span.end_time) == Some(end_day),
        start_day != end_day,
    ensures
        ({
            let walk = walk_of(zone, span.start_time, start_day, end_day);
            let days = days_walked(walk).push(end_day);
            let lengths = lengths_walked(walk);
            let shares = shares_of(span.duration as int, lengths);
            let after = after_span(buckets, zone, span);
            &&& days.len() == shares.len() == walk.len() + 1
            &&& forall|a: int, b: int| 0 <= a < b < days.len() ==> days[a] < days[b]
            &&& forall|i: int| 0 <= i < lengths.len() ==> #[trigger] lengths[i] >= 1
            &&& forall|i: int|
                0 <= i < lengths.len() ==> #[trigger] shares[i] == whole_seconds(
                    smaller(lengths[i], span.duration - sum_of(lengths.take(i))),
                )
            &&& shares[lengths.len() as int] == whole_seconds(span.duration - sum_of(lengths))
            &&& forall|i: int|
                0 <= i < days.len() ==> seconds_on(after, #[trigger] days[i]) == whole_seconds(
                    seconds_on(buckets, days[i]) + shares[i],
                )
            &&& forall|i: int|
                0 <= i < days.len() && seconds_on(buckets, #[trigger] days[i]) + shares[i]
                    <= u32::MAX ==> seconds_on(after, days[i]) == seconds_on(buckets, days[i])
                    + shares[i]
            &&& forall|other: i32|
                !days.contains(other) ==> seconds_on(after, other) == seconds_on(buckets, other)
            &&& span.duration <= u32::MAX ==> total_of(shares) == whole_seconds(
                span.duration as int,
            )
            &&& 0 <= span.duration <= u32::MAX ==> total_of(shares) == span.duration
            &&& 0 <= span.duration <= u32::MAX && (forall|i: int|
                0 <= i < days.len() ==> seconds_on(buckets, #[trigger] days[i]) + shares[i]
                    <= u32::MAX) ==> growth_of(buckets, after, days) == span.duration
        }),
{
    let walk = walk_of(zone, span.start_time, start_day, end_day);
    let days = days_walked(walk).push(end_day);
    let lengths = lengths_walked(walk);
    let shares = shares_of(span.duration as int, lengths);
    let after = after_span(buckets, zone, span);
    lemma_shares_count(span.duration as int, lengths);
    lemma_walk_rises(zone, span.start_time, start_day, end_day);
    assert forall|a: int, b: int| 0 <= a < b < days.len() implies days[a] < days[b] by {
        assert(days[a] == walk[a].0);
        if b < walk.len() {
            assert(days[b] == walk[b].0);
        }
    }
    assert forall|i: int| 0 <= i < lengths.len() implies #[trigger] lengths[i] >= 1 by {
        assert(lengths[i] == walk[i].1);
    }
    assert forall|i: int| 0 <= i < lengths.len() implies #[trigger] shares[i] == whole_seconds(
        smaller(lengths[i], span.duration - sum_of(lengths.take(i))),
    ) by {
        lemma_share_rule(span.duration as int, lengths, i);
    }
    lemma_share_rule(span.duration as int, lengths, lengths.len() as int);
    assert forall|i: int| 0 <= i < days.len() implies seconds_on(after, #[trigger] days[i])
        == whole_seconds(seconds_on(buckets, days[i]) + shares[i]) by {
        lemma_credited_all_each(buckets, days, shares, i);
    }
    assert forall|other: i32| !days.contains(other) implies seconds_on(after, other)
        == seconds_on(buckets, other) by {
        assert forall|i: int| 0 <= i < days.len() implies days[i] != other by {
            assert(days.contains(days[i]));
        }
        lemma_credited_all_elsewhere(buckets, days, shares, other);
    }
    if span.duration <= u32::MAX {
        lemma_shares_add_up(span.duration as int, lengths);
    }
    if forall|i: int|
        0 <= i < days.len() ==> seconds_on(buckets, #[trigger] days[i]) + shares[i] <= u32::MAX {
        lemma_growth_is_total(buckets, after, days, shares);
    }
}

/// The days from `start` to `end`, both included, in order.
pub open spec fn date_range(start: i32, end: i32) -> Seq<i32> {
    if start <= end {
        Seq::new((end - start + 1) as nat, |i: int| (start + i) as i32)
    } else {
        Seq::empty()
    }
}

/// Lists the days from `start` to `end`, both included.
pub fn generate_date_range(start: i32, end: i32) -> (dates: Vec<i32>)
    ensures
        dates@ == date_range(start, end),
{
    let mut dates: Vec<i32> = Vec::new();
    if start > end {
        return dates;
    }
    let mut current: i32 = start;
    while current < end
        invariant
            start <= current <= end,
            dates@ == Seq::new((current - start) as nat, |i: int| (start + i) as i32),
        decreases end - current,
    {
        dates.push(current);
        current = current + 1;
    }
    dates.push(end);
    dates
}

/// The text that `create_timezone_timestamp` fails with.
pub open spec fn invalid_date_time() -> Seq<char> {
    "Invalid date/time"@
}

/// The instant at which the wall clock of `tz` shows the given time on `day`.
/// Fails where that time does not exist on that day, or exists twice.
pub fn create_timezone_timestamp(
    tz: &Timezone,
    day: i32,
    hour: u32,
    minute: u32,
    second: u32,
) -> (found: Result<i64, String>)
    ensures
        match local_instant_of(tz@, day, hour, minute, second) {
            Some(instant) => found == Ok::<i64, String>(instant),
            None => found is Err && found->Err_0@ == invalid_date_time(),
        },
{
    match tz.instant_at(day, hour, minute, second) {
        Some(instant) => Ok(instant),
        None => Err(String::from_str("Invalid date/time")),
    }
}

/// A length of time in words: hours and minutes from one hour on, minutes
/// and seconds below that, and `<1m` below one minute. A part that is zero
/// is left out.
pub open spec fn human_time_text(seconds: nat) -> Seq<char> {
    let hours = seconds / 3600;
    let minutes = (seconds % 3600) / 60;
    let rest = seconds % 60;
    if hours > 0 {
        if minutes == 0 {
            decimal(hours) + "h"@
        } else {
            decimal(hours) + "h "@ + decimal(minutes) + "m"@
        }
    } else if minutes > 0 {
        if rest == 0 {
            decimal(minutes) + "m"@
        } else {
            decimal(minutes) + "m "@ + decimal(rest) + "s"@
        }
    } else {
        "<1m"@
    }
}

/// Writes a length of time in words.
pub fn human_time(seconds: u32) -> (text: String)
    ensures
        text@ == human_time_text(seconds as nat),
{
    let hours: u32 = seconds / 3600;
    let minutes: u32 = (seconds % 3600) / 60;
    let rest: u32 = seconds % 60;
    if hours > 0 {
        let mut text = decimal_string(hours);
        if minutes == 0 {
            text.append("h");
        } else {
            text.append("h ");
            text.append(decimal_string(minutes).as_str());
            text.append("m");
        }
        text
    } else if minutes > 0 {
        let mut text = decimal_string(minutes);
        if rest == 0 {
            text.append("m");
        } else {
            text.append("m ");
            text.append(decimal_string(rest).as_str());
            text.append("s");
        }
        text
    } else {
        String::from_str("<1m")
    }
}

} // verus!
