use hackatime_heatmap::buckets::Span;
use hackatime_heatmap::error::RenderError;
use hackatime_heatmap::params::RenderParameters;
use hackatime_heatmap::render::{
    ok_response, prepare_drawing, refusal, step, Action, Caches, Event, FetchFailure, RenderPlan,
    Response, Stage,
};
use hackatime_heatmap::cache::CacheKey;

/// 2023-11-14 22:13:20 UTC
const NOW: i64 = 1_700_000_000;
const SECOND: u64 = 1_000_000_000;

fn request_for(id: &str) -> RenderParameters {
    let mut params = RenderParameters::with_defaults(Some(id.to_string()));
    params.timezone = "UTC".to_string();
    params
}

/// Serves one request as the service does, with an upstream that hands out
/// `spans` and counts how often it is asked.
fn serve(
    params: RenderParameters,
    ticks: u64,
    caches: &mut Caches,
    upstream: &Result<Vec<Span>, FetchFailure>,
    fetches: &mut u32,
) -> Response {
    let (mut stage, mut action) = step(
        Stage::Received,
        Event::Request { params, ticks, unix_time: NOW },
        caches,
    );
    loop {
        let event = match action {
            Action::Respond(response) => {
                assert!(matches!(stage, Stage::Done));
                return response;
            }
            Action::FetchSpans { user_id } => {
                assert!(!user_id.is_empty());
                *fetches += 1;
                match upstream {
                    Ok(spans) => Event::SpansFetched(spans.clone()),
                    Err(failure) => Event::FetchFailed(*failure),
                }
            }
            Action::Draw(layout) => Event::DocumentDrawn(format!(
                "<svg width=\"{}\" cells=\"{}\"/>",
                layout.width,
                layout.cells.len()
            )),
        };
        let next = step(stage, event, caches);
        stage = next.0;
        action = next.1;
    }
}

fn header<'a>(response: &'a Response, name: &str) -> Option<&'a str> {
    response
        .headers
        .iter()
        .find(|(held, _)| held == name)
        .map(|(_, value)| value.as_str())
}

#[test]
fn defaults_of_a_request() {
    let params = RenderParameters::with_defaults(None);
    assert_eq!(params.id, None);
    assert_eq!(params.timezone, "Europe/London");
    assert_eq!(params.cell_size, 15);
    assert_eq!(params.padding, 2);
    assert_eq!(params.rounding, 50);
    assert_eq!(params.theme, "dark");
    assert_eq!(params.ranges, "70,30,10");
    assert!(!params.standalone);
    assert!(!params.labels);
    assert_eq!(params.year, None);
}

#[test]
fn parameters_are_the_same_key_when_every_field_agrees() {
    let base = request_for("u1");
    assert!(base.same_key(&base.clone()));
    assert_eq!(base, base.clone());
    assert_ne!(base, request_for("u2"));
    let mut other = base.clone();
    other.id = Some("u2".to_string());
    assert!(!base.same_key(&other));
    let mut other = base.clone();
    other.id = None;
    assert!(!base.same_key(&other));
    let mut other = base.clone();
    other.timezone = "Europe/London".to_string();
    assert!(!base.same_key(&other));
    let mut other = base.clone();
    other.cell_size = 16;
    assert!(!base.same_key(&other));
    let mut other = base.clone();
    other.padding = 3;
    assert!(!base.same_key(&other));
    let mut other = base.clone();
    other.rounding = 51;
    assert!(!base.same_key(&other));
    let mut other = base.clone();
    other.theme = "light".to_string();
    assert!(!base.same_key(&other));
    let mut other = base.clone();
    other.ranges = "70, 30, 10".to_string();
    assert!(!base.same_key(&other));
    let mut other = base.clone();
    other.standalone = true;
    assert!(!base.same_key(&other));
    let mut other = base.clone();
    other.labels = true;
    assert!(!base.same_key(&other));
    let mut other = base.clone();
    other.year = Some("2024".to_string());
    assert!(!base.same_key(&other));
}

#[test]
fn request_without_user_is_refused() {
    let mut caches = Caches::new();
    let mut fetches = 0;
    let response = serve(
        RenderParameters::with_defaults(None),
        0,
        &mut caches,
        &Ok(Vec::new()),
        &mut fetches,
    );
    assert_eq!(response.status, 400);
    assert_eq!(response.body, "Missing required parameter: id");
    assert!(response.headers.is_empty());
    assert_eq!(fetches, 0);
    assert_eq!(caches.responses.len(), 0);
}

#[test]
fn request_with_bad_ranges_is_refused() {
    let mut caches = Caches::new();
    let mut fetches = 0;
    let cases = [
        ("10,30,70", "Invalid ranges parameter, must be three descending positive integers"),
        ("70,30,0", "Invalid ranges parameter, must be three descending positive integers"),
        ("170,130,10", "Invalid ranges parameter, values must be within 0 and 100"),
        ("70,30", "Invalid ranges parameter, must be three comma-separated integers"),
        ("70,abc,30,10", "Invalid ranges parameter, must be three comma-separated integers"),
        ("70,30,10,", "Invalid ranges parameter, must be three comma-separated integers"),
    ];
    for (ranges, words) in cases {
        let mut params = request_for("u1");
        params.ranges = ranges.to_string();
        let response = serve(params, 0, &mut caches, &Ok(Vec::new()), &mut fetches);
        assert_eq!(response.status, 400);
        assert_eq!(response.body, words);
    }
    assert_eq!(fetches, 0);
}

#[test]
fn request_with_unknown_zone_is_refused() {
    let mut caches = Caches::new();
    let mut fetches = 0;
    let mut params = request_for("u1");
    params.timezone = "Moon/Base".to_string();
    let response = serve(params, 0, &mut caches, &Ok(Vec::new()), &mut fetches);
    assert_eq!(response.status, 400);
    assert_eq!(response.body, "Unsupported timezone");
    assert_eq!(fetches, 0);
}

#[test]
fn request_with_bad_year_is_refused() {
    let mut caches = Caches::new();
    let mut fetches = 0;
    let mut params = request_for("u1");
    params.year = Some("next".to_string());
    let response = serve(params, 0, &mut caches, &Ok(Vec::new()), &mut fetches);
    assert_eq!(response.status, 400);
    assert_eq!(
        response.body,
        "Invalid year parameter, must be a four-digit year or current"
    );
    assert_eq!(fetches, 0);
}

#[test]
fn faults_are_reported_in_the_order_of_the_checks() {
    let mut params = RenderParameters::with_defaults(None);
    params.ranges = "1".to_string();
    params.timezone = "Nowhere".to_string();
    params.year = Some("x".to_string());
    assert_eq!(RenderPlan::make(params.clone(), 0, NOW).unwrap_err(), RenderError::MissingId);
    params.id = Some("u".to_string());
    assert!(matches!(
        RenderPlan::make(params.clone(), 0, NOW).unwrap_err(),
        RenderError::InvalidRanges(_)
    ));
    params.ranges = "3,2,1".to_string();
    assert_eq!(
        RenderPlan::make(params.clone(), 0, NOW).unwrap_err(),
        RenderError::UnsupportedTimezone
    );
    params.timezone = "UTC".to_string();
    assert_eq!(RenderPlan::make(params.clone(), 0, NOW).unwrap_err(), RenderError::InvalidYear);
    params.year = None;
    let plan = RenderPlan::make(params, 0, NOW).unwrap();
    assert_eq!(plan.user_id(), "u");
    assert_eq!(plan.window().last_day - plan.window().first_day, 365);
}

#[test]
fn request_whose_days_cannot_be_placed_is_refused() {
    let mut caches = Caches::new();
    let (stage, action) = step(
        Stage::Received,
        Event::Request { params: request_for("u1"), ticks: 0, unix_time: i64::MAX },
        &mut caches,
    );
    assert!(matches!(stage, Stage::Done));
    match action {
        Action::Respond(response) => {
            assert_eq!(response.status, 500);
            assert_eq!(response.body, "Invalid date for the end of the range");
        }
        other => panic!("{:?}", other),
    }
}

#[test]
fn one_hour_of_activity_colours_one_cell() {
    let start = NOW - 10 * 86_400 - (NOW % 86_400) + 3_600;
    let spans = vec![Span::whole(start, start + 3_600, 3_600)];
    let mut caches = Caches::new();
    let (stage, action) = step(
        Stage::Received,
        Event::Request { params: request_for("U"), ticks: 0, unix_time: NOW },
        &mut caches,
    );
    assert!(matches!(&action, Action::FetchSpans { user_id } if user_id == "U"));
    let (stage, action) = step(stage, Event::SpansFetched(spans), &mut caches);
    assert!(matches!(stage, Stage::AwaitingDocument(_)));
    let layout = match action {
        Action::Draw(layout) => layout,
        other => panic!("{:?}", other),
    };
    assert_eq!(layout.cells.len(), 366);
    let active: Vec<_> = layout.cells.iter().filter(|cell| cell.level > 0).collect();
    assert_eq!(active.len(), 1);
    assert_eq!(active[0].level, 4);
    assert_eq!(active[0].seconds, 3_600);
    assert_eq!(active[0].label, "1h on November 4th");
    assert_eq!(active[0].fill, "#70c985");
    assert_eq!(layout.cells[365 - 10].label, "1h on November 4th");
    assert_eq!(layout.cells[365].label, "No activity on November 14th");
    assert_eq!(layout.cells[0].label, "No activity on November 14th");
}

#[test]
fn document_is_delivered_with_its_headers() {
    let mut caches = Caches::new();
    let mut fetches = 0;
    let response = serve(request_for("u1"), 0, &mut caches, &Ok(Vec::new()), &mut fetches);
    assert_eq!(response.status, 200);
    assert_eq!(response.body, "<svg width=\"903\" cells=\"366\"/>");
    assert_eq!(header(&response, "content-type"), Some("image/svg+xml"));
    assert_eq!(header(&response, "cache-control"), Some("public, max-age=300"));
    assert_eq!(fetches, 1);
}

#[test]
fn standalone_document_is_delivered_as_a_page() {
    let mut caches = Caches::new();
    let mut fetches = 0;
    let mut params = request_for("u1");
    params.standalone = true;
    let response = serve(params, 0, &mut caches, &Ok(Vec::new()), &mut fetches);
    assert_eq!(response.status, 200);
    assert_eq!(header(&response, "content-type"), Some("text/html"));
    assert!(response.body.starts_with("<!DOCTYPE html>"));
    assert!(response.body.contains("<svg width=\"903\" cells=\"366\"/>"));
}

#[test]
fn second_identical_request_is_served_from_the_cache() {
    let mut caches = Caches::new();
    let mut fetches = 0;
    let upstream = Ok(Vec::new());
    let first = serve(request_for("u1"), 5 * SECOND, &mut caches, &upstream, &mut fetches);
    assert_eq!(fetches, 1);
    let (stage, action) = step(
        Stage::Received,
        Event::Request { params: request_for("u1"), ticks: 6 * SECOND, unix_time: NOW },
        &mut caches,
    );
    assert!(matches!(stage, Stage::Done));
    match action {
        Action::Respond(second) => {
            assert_eq!(second.status, 200);
            assert_eq!(second.body, first.body);
            assert_eq!(second.headers, first.headers);
        }
        other => panic!("{:?}", other),
    }
    let again = serve(request_for("u1"), 304 * SECOND, &mut caches, &upstream, &mut fetches);
    assert_eq!(again.body, first.body);
    assert_eq!(fetches, 1);
    assert_eq!(caches.responses.len(), 1);
}

#[test]
fn other_parameters_are_drawn_anew_from_the_cached_spans() {
    let mut caches = Caches::new();
    let mut fetches = 0;
    let upstream = Ok(Vec::new());
    serve(request_for("u1"), 0, &mut caches, &upstream, &mut fetches);
    let mut params = request_for("u1");
    params.cell_size = 10;
    let response = serve(params, SECOND, &mut caches, &upstream, &mut fetches);
    assert_eq!(response.body, "<svg width=\"638\" cells=\"366\"/>");
    assert_eq!(fetches, 1);
    assert_eq!(caches.responses.len(), 2);
    assert_eq!(caches.spans.len(), 1);
    serve(request_for("u2"), SECOND, &mut caches, &upstream, &mut fetches);
    assert_eq!(fetches, 2);
    assert_eq!(caches.spans.len(), 2);
}

#[test]
fn expired_document_is_drawn_again() {
    let mut caches = Caches::new();
    let mut fetches = 0;
    let upstream = Ok(Vec::new());
    serve(request_for("u1"), 0, &mut caches, &upstream, &mut fetches);
    serve(request_for("u1"), 300 * SECOND - 1, &mut caches, &upstream, &mut fetches);
    assert_eq!(fetches, 1);
    serve(request_for("u1"), 300 * SECOND, &mut caches, &upstream, &mut fetches);
    assert_eq!(fetches, 2);
    assert_eq!(caches.responses.len(), 1);
    assert_eq!(caches.spans.len(), 1);
}

#[test]
fn failed_fetch_is_answered_and_leaves_the_caches_alone() {
    let cases = [
        (FetchFailure::Unreachable, 500),
        (FetchFailure::Malformed, 500),
        (FetchFailure::TimedOut, 504),
    ];
    for (failure, status) in cases {
        let mut caches = Caches::new();
        let mut fetches = 0;
        let response = serve(request_for("u1"), 0, &mut caches, &Err(failure), &mut fetches);
        assert_eq!(response.status, status);
        assert_eq!(response.body, "");
        assert!(response.headers.is_empty());
        assert_eq!(fetches, 1);
        assert_eq!(caches.responses.len(), 0);
        assert_eq!(caches.spans.len(), 0);
        serve(request_for("u1"), 1, &mut caches, &Err(failure), &mut fetches);
        assert_eq!(fetches, 2);
    }
}

#[test]
fn event_out_of_turn_ends_the_request() {
    let mut caches = Caches::new();
    let (stage, action) = step(Stage::Received, Event::SpansFetched(Vec::new()), &mut caches);
    assert!(matches!(stage, Stage::Done));
    assert!(matches!(action, Action::Respond(response) if response.status == 500));
    let (stage, action) = step(Stage::Done, Event::DocumentDrawn(String::new()), &mut caches);
    assert!(matches!(stage, Stage::Done));
    assert!(matches!(action, Action::Respond(response) if response.status == 500));
    let plan = RenderPlan::make(request_for("u1"), 0, NOW).unwrap();
    let (_, action) = step(
        Stage::AwaitingSpans(plan),
        Event::DocumentDrawn("x".to_string()),
        &mut caches,
    );
    assert!(matches!(action, Action::Respond(response) if response.status == 500));
    let plan = RenderPlan::make(request_for("u1"), 0, NOW).unwrap();
    let (_, action) = step(
        Stage::AwaitingDocument(plan),
        Event::FetchFailed(FetchFailure::TimedOut),
        &mut caches,
    );
    assert!(matches!(action, Action::Respond(response) if response.status == 500));
    assert_eq!(caches.responses.len(), 0);
    assert_eq!(caches.spans.len(), 0);
}

#[test]
fn caches_of_the_service() {
    let caches = Caches::new();
    assert_eq!(caches.responses.capacity(), 200);
    assert_eq!(caches.spans.capacity(), 25);
    assert_eq!(caches.responses.ttl(), 300 * SECOND);
    assert_eq!(caches.spans.ttl(), 300 * SECOND);
}

#[test]
fn span_cache_holds_at_most_its_capacity() {
    let mut caches = Caches::new();
    let mut fetches = 0;
    let upstream = Ok(Vec::new());
    for user in 0..26u64 {
        serve(request_for(&format!("u{}", user)), user, &mut caches, &upstream, &mut fetches);
    }
    assert_eq!(fetches, 26);
    assert_eq!(caches.spans.len(), 25);
    assert!(caches.spans.get(&"u0".to_string(), 30).is_none());
    assert!(caches.spans.get(&"u1".to_string(), 30).is_some());
    assert!(caches.spans.get(&"u25".to_string(), 30).is_some());
}

#[test]
fn plan_is_drawn_from_the_spans_of_its_year() {
    let mut params = request_for("u1");
    params.year = Some("1970".to_string());
    let plan = RenderPlan::make(params, 0, NOW).unwrap();
    let spans = vec![
        Span::whole(100, 200, 100),
        Span::whole(NOW, NOW + 60, 60),
    ];
    let layout = prepare_drawing(&plan, &spans);
    assert_eq!(layout.cells.len(), 365);
    assert_eq!(layout.cells[0].seconds, 100);
    assert_eq!(layout.cells[0].level, 4);
    assert_eq!(layout.cells[0].label, "1m 40s on January 1st");
    assert!(layout.cells[1..].iter().all(|cell| cell.level == 0));
}

#[test]
fn responses_are_built_from_their_parts() {
    let response = ok_response(true, "body".to_string());
    assert_eq!(response.status, 200);
    assert_eq!(response.body, "body");
    assert_eq!(header(&response, "content-type"), Some("text/html"));
    let response = refusal(&RenderError::UpstreamTimeout);
    assert_eq!(response.status, 504);
    assert_eq!(response.body, "");
}

#[test]
fn wrong_request_is_refused_though_documents_are_kept() {
    let mut caches = Caches::new();
    let mut fetches = 0;
    let upstream = Ok(Vec::new());
    serve(request_for("u1"), 0, &mut caches, &upstream, &mut fetches);
    assert_eq!(caches.responses.len(), 1);
    let mut wrong = request_for("u1");
    wrong.ranges = "70,abc,30,10".to_string();
    assert_eq!(serve(wrong, 1, &mut caches, &upstream, &mut fetches).status, 400);
    let mut wrong = request_for("u1");
    wrong.timezone = "Nowhere".to_string();
    assert_eq!(serve(wrong, 1, &mut caches, &upstream, &mut fetches).status, 400);
    let mut wrong = request_for("u1");
    wrong.year = Some("20x4".to_string());
    assert_eq!(serve(wrong, 1, &mut caches, &upstream, &mut fetches).status, 400);
    let mut wrong = request_for("u1");
    wrong.id = None;
    assert_eq!(serve(wrong, 1, &mut caches, &upstream, &mut fetches).status, 400);
    assert_eq!(fetches, 1);
    assert_eq!(caches.responses.len(), 1);
}

#[test]
fn labels_bring_notes_into_the_layout() {
    let mut params = request_for("u1");
    params.labels = true;
    params.year = Some("1970".to_string());
    let plan = RenderPlan::make(params, 0, NOW).unwrap();
    let layout = prepare_drawing(&plan, &Vec::new());
    assert!(layout.labels);
    let months: Vec<&str> = layout.month_notes.iter().map(|note| note.text.as_str()).collect();
    assert_eq!(
        months,
        vec!["Jan", "Feb", "Mar", "Apr", "May", "Jun", "Jul", "Aug", "Sep", "Oct", "Nov", "Dec"]
    );
    let weekdays: Vec<&str> = layout.weekday_notes.iter().map(|note| note.text.as_str()).collect();
    assert_eq!(weekdays, vec!["Fri", "Sun", "Tue"]);
}
