use hackatime_heatmap::buckets::{clamp_seconds, DayBuckets, Span};
use hackatime_heatmap::time::{
    create_timezone_timestamp, day_share, generate_date_range, human_time,
    process_span_into_buckets, split_span_across_days,
};
use hackatime_heatmap::zone::Timezone;

/// 1 January 1970 as a day number.
const EPOCH_DAY: i32 = 719_163;

fn zone(name: &str) -> Timezone {
    Timezone::parse(name).expect("known zone")
}

#[test]
fn human_time_below_one_minute() {
    assert_eq!(human_time(0), "<1m");
    assert_eq!(human_time(59), "<1m");
}

#[test]
fn human_time_minutes_and_seconds() {
    assert_eq!(human_time(60), "1m");
    assert_eq!(human_time(61), "1m 1s");
    assert_eq!(human_time(3599), "59m 59s");
}

#[test]
fn human_time_hours_and_minutes() {
    assert_eq!(human_time(3600), "1h");
    assert_eq!(human_time(3660), "1h 1m");
    assert_eq!(human_time(3601), "1h");
    assert_eq!(human_time(86_399), "23h 59m");
    assert_eq!(human_time(u32::MAX), "1193046h 28m");
}

#[test]
fn clamp_seconds_keeps_the_range_of_a_bucket() {
    assert_eq!(clamp_seconds(-5), 0);
    assert_eq!(clamp_seconds(0), 0);
    assert_eq!(clamp_seconds(17), 17);
    assert_eq!(clamp_seconds(u32::MAX as i128), u32::MAX);
    assert_eq!(clamp_seconds(u32::MAX as i128 + 1), u32::MAX);
}

#[test]
fn day_share_is_the_smaller_of_day_and_rest() {
    assert_eq!(day_share(86_400, 100_000), 86_400);
    assert_eq!(day_share(86_400, 500), 500);
    assert_eq!(day_share(86_400, -3), 0);
    assert_eq!(day_share(-1, 10), 0);
}

#[test]
fn unknown_zone_is_refused() {
    assert!(Timezone::parse("Mars/Olympus_Mons").is_none());
    assert!(Timezone::parse("").is_none());
    assert!(Timezone::parse("europe/london").is_none());
    assert_eq!(zone("Europe/London").name(), "Europe/London");
}

#[test]
fn day_of_an_instant_follows_the_zone() {
    let utc = zone("UTC");
    assert_eq!(utc.day_at(0), Some(EPOCH_DAY));
    assert_eq!(utc.day_at(86_399), Some(EPOCH_DAY));
    assert_eq!(utc.day_at(86_400), Some(EPOCH_DAY + 1));
    assert_eq!(utc.day_at(-1), Some(EPOCH_DAY - 1));
    let tokyo = zone("Asia/Tokyo");
    assert_eq!(tokyo.day_at(15 * 3600 - 1), Some(EPOCH_DAY));
    assert_eq!(tokyo.day_at(15 * 3600), Some(EPOCH_DAY + 1));
    assert_eq!(utc.day_at(i64::MAX), None);
    assert_eq!(utc.day_at(i64::MIN), None);
}

#[test]
fn timestamp_of_a_wall_clock_time() {
    let utc = zone("UTC");
    assert_eq!(create_timezone_timestamp(&utc, EPOCH_DAY, 0, 0, 0), Ok(0));
    assert_eq!(create_timezone_timestamp(&utc, EPOCH_DAY, 23, 59, 59), Ok(86_399));
    let tokyo = zone("Asia/Tokyo");
    assert_eq!(create_timezone_timestamp(&tokyo, EPOCH_DAY, 9, 0, 0), Ok(0));
}

#[test]
fn timestamp_of_a_time_that_does_not_exist() {
    let utc = zone("UTC");
    assert_eq!(
        create_timezone_timestamp(&utc, EPOCH_DAY, 24, 0, 0),
        Err("Invalid date/time".to_string())
    );
    // 2021-03-28 in London: the clock goes from 00:59:59 to 02:00:00.
    let london = zone("Europe/London");
    let day = EPOCH_DAY + 18_714;
    assert_eq!(
        create_timezone_timestamp(&london, day, 1, 30, 0),
        Err("Invalid date/time".to_string())
    );
    // 2021-10-31 in London: 01:30 comes twice.
    let day = EPOCH_DAY + 18_931;
    assert_eq!(
        create_timezone_timestamp(&london, day, 1, 30, 0),
        Err("Invalid date/time".to_string())
    );
    assert_eq!(
        create_timezone_timestamp(&london, i32::MAX, 0, 0, 0),
        Err("Invalid date/time".to_string())
    );
}

#[test]
fn date_range_lists_both_ends() {
    assert_eq!(generate_date_range(5, 8), vec![5, 6, 7, 8]);
    assert_eq!(generate_date_range(5, 5), vec![5]);
    assert_eq!(generate_date_range(6, 5), Vec::<i32>::new());
    assert_eq!(generate_date_range(-1, 1), vec![-1, 0, 1]);
    assert_eq!(
        generate_date_range(i32::MAX - 1, i32::MAX),
        vec![i32::MAX - 1, i32::MAX]
    );
}

#[test]
fn span_inside_one_day_adds_its_duration() {
    let utc = zone("UTC");
    let mut buckets = DayBuckets::new();
    let span = Span::whole(1_000, 4_600, 3_600);
    process_span_into_buckets(&span, &utc, &mut buckets);
    assert_eq!(buckets.get(EPOCH_DAY), 3_600);
    assert!(buckets.contains(EPOCH_DAY));
    assert!(!buckets.contains(EPOCH_DAY + 1));
    process_span_into_buckets(&span, &utc, &mut buckets);
    assert_eq!(buckets.get(EPOCH_DAY), 7_200);
}

#[test]
fn span_over_two_days_is_split_at_local_midnight() {
    let utc = zone("UTC");
    let mut buckets = DayBuckets::new();
    // 23:00:00 on day 0 to 01:00:00 on day 1.
    let span = Span::whole(82_800, 90_000, 7_200);
    process_span_into_buckets(&span, &utc, &mut buckets);
    assert_eq!(buckets.get(EPOCH_DAY), 3_600);
    assert_eq!(buckets.get(EPOCH_DAY + 1), 3_600);
}

#[test]
fn span_over_three_days_fills_the_middle_day() {
    let utc = zone("UTC");
    let mut buckets = DayBuckets::new();
    let span = Span::whole(82_800, 2 * 86_400 + 3_600, 3_600 + 86_400 + 3_600);
    process_span_into_buckets(&span, &utc, &mut buckets);
    assert_eq!(buckets.get(EPOCH_DAY), 3_600);
    assert_eq!(buckets.get(EPOCH_DAY + 1), 86_400);
    assert_eq!(buckets.get(EPOCH_DAY + 2), 3_600);
}

#[test]
fn short_duration_leaves_later_days_touched_but_empty() {
    let utc = zone("UTC");
    let mut buckets = DayBuckets::new();
    let span = Span::whole(82_800, 2 * 86_400 + 3_600, 100);
    process_span_into_buckets(&span, &utc, &mut buckets);
    assert_eq!(buckets.get(EPOCH_DAY), 100);
    assert_eq!(buckets.get(EPOCH_DAY + 1), 0);
    assert_eq!(buckets.get(EPOCH_DAY + 2), 0);
    assert!(buckets.contains(EPOCH_DAY + 1));
    assert!(buckets.contains(EPOCH_DAY + 2));
}

#[test]
fn long_duration_lands_on_the_last_day() {
    let utc = zone("UTC");
    let mut buckets = DayBuckets::new();
    let span = Span::whole(82_800, 90_000, 100_000);
    process_span_into_buckets(&span, &utc, &mut buckets);
    assert_eq!(buckets.get(EPOCH_DAY), 3_600);
    assert_eq!(buckets.get(EPOCH_DAY + 1), 96_400);
}

#[test]
fn split_follows_the_wall_clock_of_the_zone() {
    // 2021-03-27 23:00 to 2021-03-29 01:00 in London; the 28th has 23 hours.
    let london = zone("Europe/London");
    let first = EPOCH_DAY + 18_713;
    let start = create_timezone_timestamp(&london, first, 23, 0, 0).unwrap();
    let end = create_timezone_timestamp(&london, first + 2, 1, 0, 0).unwrap();
    assert_eq!(end - start, 25 * 3_600);
    let mut buckets = DayBuckets::new();
    let span = Span::whole(start, end, end - start);
    split_span_across_days(&span, first, first + 2, &london, &mut buckets);
    assert_eq!(buckets.get(first), 3_600);
    assert_eq!(buckets.get(first + 1), 23 * 3_600);
    assert_eq!(buckets.get(first + 2), 3_600);
}

#[test]
fn negative_duration_adds_nothing() {
    let utc = zone("UTC");
    let mut buckets = DayBuckets::new();
    let span = Span::whole(1_000, 2_000, -50);
    process_span_into_buckets(&span, &utc, &mut buckets);
    assert_eq!(buckets.get(EPOCH_DAY), 0);
    let span = Span::whole(82_800, 90_000, -50);
    process_span_into_buckets(&span, &utc, &mut buckets);
    assert_eq!(buckets.get(EPOCH_DAY), 0);
    assert_eq!(buckets.get(EPOCH_DAY + 1), 0);
}

#[test]
fn span_that_ends_before_it_starts_counts_on_its_end_day() {
    let utc = zone("UTC");
    let mut buckets = DayBuckets::new();
    let span = Span::whole(90_000, 1_000, 120);
    process_span_into_buckets(&span, &utc, &mut buckets);
    assert_eq!(buckets.get(EPOCH_DAY), 120);
    assert!(!buckets.contains(EPOCH_DAY + 1));
}

#[test]
fn span_with_an_instant_out_of_range_is_skipped() {
    let utc = zone("UTC");
    let mut buckets = DayBuckets::new();
    buckets.add(EPOCH_DAY, 5);
    let span = Span::whole(1_000, i64::MAX, 120);
    process_span_into_buckets(&span, &utc, &mut buckets);
    let span = Span::whole(i64::MIN, 1_000, 120);
    process_span_into_buckets(&span, &utc, &mut buckets);
    assert_eq!(buckets.get(EPOCH_DAY), 5);
}

#[test]
fn bucket_stops_at_the_largest_count() {
    let mut buckets = DayBuckets::new();
    buckets.add(3, u32::MAX - 1);
    buckets.add(3, 7);
    assert_eq!(buckets.get(3), u32::MAX);
    buckets.add(4, 0);
    assert!(buckets.contains(4));
    assert_eq!(buckets.get(4), 0);
}
