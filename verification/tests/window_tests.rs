use hackatime_heatmap::error::{DateBoundary, RenderError};
use hackatime_heatmap::window::{
    parse_year, resolve_window, window_from_days, year_days, DateWindow, YearChoice,
};
use hackatime_heatmap::zone::Timezone;

const EPOCH_DAY: i32 = 719_163;
/// 2023-11-14 22:13:20 UTC
const NOW: i64 = 1_700_000_000;
/// 2023-11-14
const TODAY: i32 = EPOCH_DAY + 19_675;

fn zone_named(name: &str) -> Timezone {
    Timezone::parse(name).expect("known zone")
}

#[test]
fn absent_year_asks_for_the_trailing_days() {
    assert!(matches!(parse_year(&None), Ok(YearChoice::Trailing)));
}

#[test]
fn current_year_is_asked_for_by_its_word() {
    assert!(matches!(parse_year(&Some("current".to_string())), Ok(YearChoice::Current)));
}

#[test]
fn four_digits_ask_for_a_year() {
    assert!(matches!(parse_year(&Some("2024".to_string())), Ok(YearChoice::Year(2024))));
    assert!(matches!(parse_year(&Some("0000".to_string())), Ok(YearChoice::Year(0))));
    assert!(matches!(parse_year(&Some("9999".to_string())), Ok(YearChoice::Year(9999))));
    assert!(matches!(parse_year(&Some("0987".to_string())), Ok(YearChoice::Year(987))));
}

#[test]
fn other_years_are_refused() {
    let refused =
        ["", "24", "202", "20245", "+202", "-202", "20a4", " 2024", "Current", "２０２４"];
    for text in refused {
        assert!(
            matches!(parse_year(&Some(text.to_string())), Err(RenderError::InvalidYear)),
            "{:?}",
            text
        );
    }
}

#[test]
fn days_of_a_year() {
    assert_eq!(year_days(1970), Ok((EPOCH_DAY, EPOCH_DAY + 364)));
    assert_eq!(year_days(2023), Ok((EPOCH_DAY + 19_358, EPOCH_DAY + 19_722)));
    assert_eq!(year_days(2024), Ok((EPOCH_DAY + 19_723, EPOCH_DAY + 20_088)));
    assert!(matches!(
        year_days(i32::MAX),
        Err(RenderError::DateResolution(DateBoundary::Start))
    ));
}

#[test]
fn trailing_window_ends_today() {
    let window = resolve_window(&zone_named("UTC"), YearChoice::Trailing, NOW).unwrap();
    assert_eq!(
        window,
        DateWindow {
            first_day: TODAY - 365,
            last_day: TODAY,
            start: (TODAY - 365 - EPOCH_DAY) as i64 * 86_400,
            end: (TODAY - EPOCH_DAY) as i64 * 86_400 + 86_399,
        }
    );
}

#[test]
fn trailing_window_follows_the_zone() {
    // 22:13 UTC is already the next day in Tokyo.
    let window = resolve_window(&zone_named("Asia/Tokyo"), YearChoice::Trailing, NOW).unwrap();
    assert_eq!(window.last_day, TODAY + 1);
    assert_eq!(window.first_day, TODAY + 1 - 365);
    assert_eq!(window.start, (TODAY + 1 - 365 - EPOCH_DAY) as i64 * 86_400 - 9 * 3_600);
    assert_eq!(window.end, (TODAY + 1 - EPOCH_DAY) as i64 * 86_400 + 86_399 - 9 * 3_600);
}

#[test]
fn window_of_the_current_year() {
    let window = resolve_window(&zone_named("UTC"), YearChoice::Current, NOW).unwrap();
    assert_eq!(window.first_day, EPOCH_DAY + 19_358);
    assert_eq!(window.last_day, EPOCH_DAY + 19_722);
    assert_eq!(window.start, 19_358 * 86_400);
    assert_eq!(window.end, 19_722 * 86_400 + 86_399);
}

#[test]
fn window_of_a_given_year() {
    let window = resolve_window(&zone_named("UTC"), YearChoice::Year(1970), NOW).unwrap();
    assert_eq!(
        window,
        DateWindow {
            first_day: EPOCH_DAY,
            last_day: EPOCH_DAY + 364,
            start: 0,
            end: 365 * 86_400 - 1,
        }
    );
    let london = resolve_window(&zone_named("Europe/London"), YearChoice::Year(2024), NOW).unwrap();
    assert_eq!(london.last_day - london.first_day, 365);
    assert_eq!(london.end - london.start, 366 * 86_400 - 1);
}

#[test]
fn window_that_cannot_be_placed_in_time() {
    assert!(matches!(
        resolve_window(&zone_named("UTC"), YearChoice::Trailing, i64::MAX),
        Err(RenderError::DateResolution(DateBoundary::End))
    ));
    assert!(matches!(
        resolve_window(&zone_named("UTC"), YearChoice::Trailing, i64::MIN + 5),
        Err(RenderError::DateResolution(DateBoundary::End))
    ));
    assert!(matches!(
        resolve_window(&zone_named("UTC"), YearChoice::Current, i64::MAX),
        Err(RenderError::DateResolution(DateBoundary::End))
    ));
    assert!(matches!(
        window_from_days(&zone_named("UTC"), i32::MIN, EPOCH_DAY),
        Err(RenderError::DateResolution(DateBoundary::Start))
    ));
    assert!(matches!(
        window_from_days(&zone_named("UTC"), EPOCH_DAY, i32::MAX),
        Err(RenderError::DateResolution(DateBoundary::End))
    ));
}

#[test]
fn day_whose_midnight_does_not_exist_cannot_start_a_window() {
    // In Santiago the clock went from 23:59:59 on 2022-09-10 to 01:00:00 on
    // the 11th.
    let santiago = zone_named("America/Santiago");
    let day = EPOCH_DAY + 19_246;
    assert!(matches!(
        window_from_days(&santiago, day, day + 3),
        Err(RenderError::DateResolution(DateBoundary::Start))
    ));
    assert!(window_from_days(&santiago, day - 1, day).is_ok());
}

#[test]
fn statuses_and_words_of_refusals() {
    let cases: Vec<(RenderError, u16, &str)> = vec![
        (RenderError::MissingId, 400, "Missing required parameter: id"),
        (RenderError::UnsupportedTimezone, 400, "Unsupported timezone"),
        (
            RenderError::InvalidYear,
            400,
            "Invalid year parameter, must be a four-digit year or current",
        ),
        (
            RenderError::DateResolution(DateBoundary::Start),
            500,
            "Invalid date for the start of the range",
        ),
        (
            RenderError::DateResolution(DateBoundary::End),
            500,
            "Invalid date for the end of the range",
        ),
        (RenderError::UpstreamFetch, 500, ""),
        (RenderError::UpstreamParse, 500, ""),
        (RenderError::UpstreamTimeout, 504, ""),
        (RenderError::Internal, 500, ""),
    ];
    for (error, status, words) in cases {
        assert_eq!(error.status(), status);
        assert_eq!(error.message(), words);
    }
}
