//! The way of a request from its parameters to its response.
//!
//! Serving a request takes work that is not done here: reading the clock,
//! fetching the spans of a user, and drawing the document. This module
//! decides what is done next. [`step`] takes the stage at which a request
//! stands and what has just happened, and gives the next stage and the action
//! to perform; whoever runs the service performs the action and comes back
//! with its outcome.

use crate::buckets::{seconds_on, Span};
use crate::cache::{found, inserted, BoundedTtlCache, CacheEntry};
use crate::days::{day_infos_of, day_views, resolve_days, DayInfo, DayInfoView};
use crate::error::{error_message, status_code, RenderError};
use crate::heatmap::{
    bucket_spans, bucketed, day_numbers, lays_out, layout_heatmap, lemma_max_seconds,
    max_seconds, qualifies, HeatmapLayout,
};
use crate::page::{content_type, content_type_text, embed_page, page_text};
use crate::palette::{color_text, theme_colors};
use crate::params::{RenderParameters, RenderParametersView};
use crate::settings::{
    MAX_REQUEST_CACHE_ENTRIES, MAX_RESPONSE_CACHE_ENTRIES, REQUEST_CACHE_DURATION_SECONDS,
    RESPONSE_CACHE_DURATION_SECONDS, TICKS_PER_SECOND,
};
use crate::time::{date_range, human_time_text};
use crate::utils::{
    build_headers, cache_control_text, day_suffix, ranges_outcome, read_ranges, valid_ranges,
    RangesError,
};
use crate::window::{parse_year, resolve_window, window_of, year_choice_of, DateWindow};
use crate::zone::{local_day_of, zone_known, Timezone};
use vstd::prelude::*;

verus! {

/// What is sent back for a request.
#[derive(Debug)]
pub struct Response {
    /// The HTTP status.
    pub status: u16,
    /// The headers, each a name and a value.
    pub headers: Vec<(String, String)>,
    /// The body.
    pub body: String,
}

/// Whether `response` delivers `body` as a document: status 200, the content
/// type of a picture or of a page, and leave to keep it as long as the
/// service keeps it.
pub open spec fn delivers(response: Response, standalone: bool, body: Seq<char>) -> bool {
    &&& response.status == 200
    &&& response.headers@.len() == 2
    &&& response.headers@[0].0@ == "content-type"@
    &&& response.headers@[0].1@ == content_type_text(standalone)
    &&& response.headers@[1].0@ == "cache-control"@
    &&& response.headers@[1].1@ == cache_control_text(RESPONSE_CACHE_DURATION_SECONDS as nat)
    &&& response.body@ == body
}

/// Whether `response` refuses a request for the reason `error`: the status
/// and the words of that reason, and no headers.
pub open spec fn refuses(response: Response, error: RenderError) -> bool {
    &&& response.status == status_code(error)
    &&& response.headers@.len() == 0
    &&& response.body@ == error_message(error)
}

/// The response that delivers a document.
pub fn ok_response(standalone: bool, body: String) -> (response: Response)
    ensures
        delivers(response, standalone, body@),
{
    Response { status: 200, headers: build_headers(content_type(standalone)), body }
}

/// The response that refuses a request.
pub fn refusal(error: &RenderError) -> (response: Response)
    ensures
        refuses(response, *error),
{
    Response { status: error.status(), headers: Vec::new(), body: error.message() }
}

/// The two caches of the service: rendered documents by the parameters of
/// their request, and the spans of users by their id.
pub struct Caches {
    pub responses: BoundedTtlCache<RenderParameters, String>,
    pub spans: BoundedTtlCache<String, Vec<Span>>,
}

/// The time, in ticks, for which a rendered document is served again.
pub open spec fn response_ttl() -> u64 {
    (RESPONSE_CACHE_DURATION_SECONDS * TICKS_PER_SECOND) as u64
}

/// The time, in ticks, for which the spans of a user are used again.
pub open spec fn request_ttl() -> u64 {
    (REQUEST_CACHE_DURATION_SECONDS * TICKS_PER_SECOND) as u64
}

impl Caches {
    /// Whether the caches have the sizes and the times to live of the
    /// service.
    pub open spec fn standard(&self) -> bool {
        &&& self.responses.capacity() == MAX_RESPONSE_CACHE_ENTRIES
        &&& self.responses.ttl() == response_ttl()
        &&& self.spans.capacity() == MAX_REQUEST_CACHE_ENTRIES
        &&& self.spans.ttl() == request_ttl()
    }

    /// Empty caches with the sizes and the times to live of the service.
    pub fn new() -> (caches: Caches)
        ensures
            caches.standard(),
            checked_keys(caches.responses@),
            caches.responses@ == Seq::<CacheEntry<RenderParameters, String>>::empty(),
            caches.spans@ == Seq::<CacheEntry<String, Vec<Span>>>::empty(),
    {
        Caches {
            responses: BoundedTtlCache::new(
                MAX_RESPONSE_CACHE_ENTRIES,
                RESPONSE_CACHE_DURATION_SECONDS * TICKS_PER_SECOND,
            ),
            spans: BoundedTtlCache::new(
                MAX_REQUEST_CACHE_ENTRIES,
                REQUEST_CACHE_DURATION_SECONDS * TICKS_PER_SECOND,
            ),
        }
    }
}

/// What a request needs once its parameters have passed every check.
#[derive(Debug)]
pub struct RenderPlan {
    params: RenderParameters,
    user_id: String,
    thresholds: Vec<u32>,
    zone: Timezone,
    window: DateWindow,
    days: Vec<DayInfo>,
    ticks: u64,
}

/// A plan as plain values.
pub struct RenderPlanView {
    /// The parameters of the request.
    pub params: RenderParametersView,
    /// The user whose activity is shown.
    pub user_id: Seq<char>,
    /// The three thresholds.
    pub thresholds: Seq<u32>,
    /// The time zone in which days are counted.
    pub zone: Seq<char>,
    /// The range of days that is shown.
    pub window: DateWindow,
    /// The days of the range, with what the calendar says of them.
    pub days: Seq<DayInfoView>,
    /// The cache time at which the request arrived.
    pub ticks: u64,
}

impl View for RenderPlan {
    type V = RenderPlanView;

    closed spec fn view(&self) -> RenderPlanView {
        RenderPlanView {
            params: self.params@,
            user_id: self.user_id@,
            thresholds: self.thresholds@,
            zone: self.zone@,
            window: self.window,
            days: day_views(self.days@),
            ticks: self.ticks,
        }
    }
}

/// What a request asks wrongly, if anything: it must name a user, its
/// thresholds must pass, its time zone must be known and its year must be
/// well written. The first of these that fails is the fault.
pub open spec fn request_fault(params: RenderParametersView) -> Option<RenderError> {
    if params.id is None {
        Some(RenderError::MissingId)
    } else if ranges_outcome(params.ranges) is Err {
        Some(RenderError::InvalidRanges(ranges_outcome(params.ranges)->Err_0))
    } else if !zone_known(params.timezone) {
        Some(RenderError::UnsupportedTimezone)
    } else if year_choice_of(params.year) is None {
        Some(RenderError::InvalidYear)
    } else {
        None
    }
}

/// The plan for a request with the parameters `params` that arrives at the
/// cache time `ticks` and the Unix time `unix_time`, or the reason for which
/// it is refused. A request that asks wrongly is refused for its fault.
/// Then the ends of the range of days must have a place in time, and the
/// calendar must know every day of the range.
pub open spec fn plan_of(params: RenderParametersView, ticks: u64, unix_time: i64) -> Result<
    RenderPlanView,
    RenderError,
> {
    match request_fault(params) {
        Some(fault) => Err(fault),
        None => match window_of(params.timezone, year_choice_of(params.year)->0, unix_time) {
            Err(error) => Err(error),
            Ok(window) => match day_infos_of(date_range(window.first_day, window.last_day)) {
                Err(error) => Err(error),
                Ok(days) => Ok(
                    RenderPlanView {
                        params,
                        user_id: params.id->0,
                        thresholds: ranges_outcome(params.ranges)->Ok_0,
                        zone: params.timezone,
                        window,
                        days,
                        ticks,
                    },
                ),
            },
        },
    }
}

/// Whether a plan is that of a request that asks rightly: its user, its
/// thresholds and its zone are those of its parameters, and its days are
/// those of its range.
pub open spec fn plan_sound(plan: RenderPlanView) -> bool {
    &&& request_fault(plan.params) is None
    &&& plan.params.id == Some(plan.user_id)
    &&& ranges_outcome(plan.params.ranges) == Ok::<Seq<u32>, RangesError>(plan.thresholds)
    &&& plan.zone == plan.params.timezone
    &&& day_numbers(plan.days) == date_range(plan.window.first_day, plan.window.last_day)
}

/// Every plan that is made is sound.
pub proof fn lemma_plan_is_sound(params: RenderParametersView, ticks: u64, unix_time: i64)
    requires
        plan_of(params, ticks, unix_time) is Ok,
    ensures
        plan_sound(plan_of(params, ticks, unix_time)->Ok_0),
        valid_ranges(plan_of(params, ticks, unix_time)->Ok_0.thresholds),
{
    let plan = plan_of(params, ticks, unix_time)->Ok_0;
    let days = date_range(plan.window.first_day, plan.window.last_day);
    crate::days::lemma_first_unknown(days, 0);
    assert(day_numbers(plan.days) =~= days);
    crate::utils::lemma_ranges_need_three_numbers(params.ranges);
}

impl RenderPlan {
    #[verifier::type_invariant]
    spec fn sound(self) -> bool {
        plan_sound(self@) && valid_ranges(self.thresholds@)
    }

    /// Checks the parameters of a request and makes its plan.
    pub fn make(params: RenderParameters, ticks: u64, unix_time: i64) -> (plan: Result<
        RenderPlan,
        RenderError,
    >)
        ensures
            match plan_of(params@, ticks, unix_time) {
                Ok(planned) => plan is Ok && plan->Ok_0@ == planned,
                Err(error) => plan == Err::<RenderPlan, RenderError>(error),
            },
    {
        let user_id = match &params.id {
            None => {
                return Err(RenderError::MissingId);
            },
            Some(id) => id.clone(),
        };
        let numbers = match read_ranges(params.ranges.as_str()) {
            Err(fault) => {
                return Err(RenderError::InvalidRanges(fault));
            },
            Ok(numbers) => numbers,
        };
        let zone = match Timezone::parse(params.timezone.as_str()) {
            None => {
                return Err(RenderError::UnsupportedTimezone);
            },
            Some(zone) => zone,
        };
        let asked = match parse_year(&params.year) {
            Err(error) => {
                return Err(error);
            },
            Ok(asked) => asked,
        };
        let window = match resolve_window(&zone, asked, unix_time) {
            Err(error) => {
                return Err(error);
            },
            Ok(window) => window,
        };
        let days = match resolve_days(&window) {
            Err(error) => {
                return Err(error);
            },
            Ok(days) => days,
        };
        proof {
            lemma_plan_is_sound(params@, ticks, unix_time);
        }
        Ok(RenderPlan { params, user_id, thresholds: numbers, zone, window, days, ticks })
    }

    /// The user whose spans the plan needs.
    pub fn user_id(&self) -> (id: &String)
        ensures
            id@ == self@.user_id,
    {
        &self.user_id
    }

    /// The range of days that the plan shows.
    pub fn window(&self) -> (window: DateWindow)
        ensures
            window == self@.window,
    {
        self.window
    }
}

/// Whether `made` is the layout that a plan asks for, given the spans of
/// its user.
pub open spec fn draws(made: HeatmapLayout, plan: RenderPlanView, spans: Seq<Span>) -> bool {
    lays_out(
        made,
        plan.params.cell_size,
        plan.params.padding,
        plan.params.rounding,
        plan.params.labels,
        plan.params.theme,
        plan.thresholds,
        plan.days,
        bucketed(spans, plan.zone, plan.window, Map::<i32, u32>::empty()),
    )
}

/// Counts the spans of the user into days and lays the days out.
pub fn prepare_drawing(plan: &RenderPlan, spans: &Vec<Span>) -> (layout: HeatmapLayout)
    ensures
        draws(layout, plan@, spans@),
{
    proof {
        use_type_invariant(plan);
        assert(day_numbers(plan@.days).len() == plan@.days.len());
    }
    let buckets = bucket_spans(spans, &plan.zone, &plan.window);
    layout_heatmap(
        plan.params.cell_size,
        plan.params.padding,
        plan.params.rounding,
        plan.params.labels,
        &plan.params.theme,
        &plan.thresholds,
        &plan.days,
        &buckets,
    )
}

/// Why the spans of a user did not arrive.
#[derive(Clone, Copy, Debug, PartialEq, Eq, Structural)]
pub enum FetchFailure {
    /// The upstream service could not be reached, or did not answer with
    /// success.
    Unreachable,
    /// What it sent could not be read.
    Malformed,
    /// It did not answer in time.
    TimedOut,
}

/// The refusal that a failed fetch leads to.
pub open spec fn fetch_error(failure: FetchFailure) -> RenderError {
    match failure {
        FetchFailure::Unreachable => RenderError::UpstreamFetch,
        FetchFailure::Malformed => RenderError::UpstreamParse,
        FetchFailure::TimedOut => RenderError::UpstreamTimeout,
    }
}

/// Where a request stands.
#[derive(Debug)]
pub enum Stage {
    /// Nothing has been done for it.
    Received,
    /// The spans of its user are being fetched.
    AwaitingSpans(RenderPlan),
    /// Its document is being drawn.
    AwaitingDocument(RenderPlan),
    /// Its response has been given.
    Done,
}

/// What has just happened for a request.
#[derive(Debug)]
pub enum Event {
    /// It arrived, at the cache time `ticks` and the Unix time `unix_time`.
    Request { params: RenderParameters, ticks: u64, unix_time: i64 },
    /// The spans of its user arrived.
    SpansFetched(Vec<Span>),
    /// The spans of its user did not arrive.
    FetchFailed(FetchFailure),
    /// Its document was drawn.
    DocumentDrawn(String),
}

/// What is to be done next for a request.
#[derive(Debug)]
pub enum Action {
    /// Fetch the spans of this user, and come back with them.
    FetchSpans { user_id: String },
    /// Draw this layout, and come back with the document.
    Draw(HeatmapLayout),
    /// Send this response. The request is done.
    Respond(Response),
}

/// Whether a stage and an action refuse the request for the reason `error`.
pub open spec fn ends_refused(stage: Stage, action: Action, error: RenderError) -> bool {
    &&& stage is Done
    &&& action matches Action::Respond(response)
    &&& refuses(response, error)
}

/// Whether a stage and an action deliver `body`.
pub open spec fn ends_delivered(stage: Stage, action: Action, standalone: bool, body: Seq<char>)
    -> bool {
    &&& stage is Done
    &&& action matches Action::Respond(response)
    &&& delivers(response, standalone, body)
}

/// Whether a stage and an action go on to the drawing of `plan` with the
/// spans `spans`.
pub open spec fn goes_to_drawing(
    stage: Stage,
    action: Action,
    plan: RenderPlanView,
    spans: Seq<Span>,
) -> bool {
    &&& stage matches Stage::AwaitingDocument(kept)
    &&& kept@ == plan
    &&& action matches Action::Draw(made)
    &&& draws(made, plan, spans)
}

/// What follows the arrival of a request with the parameters `params`.
///
/// A request that names no user is refused. A document that is still live
/// in the cache of responses under the same parameters is delivered as it
/// is. Else the parameters are checked, and the request is refused for the
/// first fault found. Where the spans of the user are live in their cache,
/// the request goes on to drawing; else the spans are to be fetched.
pub open spec fn follows_arrival(
    stage: Stage,
    action: Action,
    params: RenderParametersView,
    ticks: u64,
    unix_time: i64,
    responses: Seq<CacheEntry<RenderParameters, String>>,
    response_ttl: u64,
    spans: Seq<CacheEntry<String, Vec<Span>>>,
    request_ttl: u64,
) -> bool {
    if params.id is None {
        ends_refused(stage, action, RenderError::MissingId)
    } else {
        match found(responses, params, ticks, response_ttl) {
            Some(body) => ends_delivered(stage, action, params.standalone, body@),
            None => match plan_of(params, ticks, unix_time) {
                Err(error) => ends_refused(stage, action, error),
                Ok(plan) => match found(spans, plan.user_id, ticks, request_ttl) {
                    Some(held) => goes_to_drawing(stage, action, plan, held@),
                    None => {
                        &&& stage matches Stage::AwaitingSpans(kept)
                        &&& kept@ == plan
                        &&& action matches Action::FetchSpans { user_id }
                        &&& user_id@ == plan.user_id
                    },
                },
            },
        }
    }
}

/// Serves the cached document of a request, if a live one is held.
fn cached_response(params: &RenderParameters, ticks: u64, caches: &Caches) -> (response: Option<
    Response,
>)
    ensures
        match found(caches.responses@, params@, ticks, caches.responses.ttl()) {
            Some(body) => response is Some && delivers(response->0, params.standalone, body@),
            None => response is None,
        },
{
    match caches.responses.get(params, ticks) {
        Some(body) => Some(ok_response(params.standalone, body.clone())),
        None => None,
    }
}

/// Goes on to drawing.
fn start_drawing(plan: RenderPlan, spans: &Vec<Span>) -> (next: (Stage, Action))
    ensures
        goes_to_drawing(next.0, next.1, plan@, spans@),
{
    let made = prepare_drawing(&plan, spans);
    (Stage::AwaitingDocument(plan), Action::Draw(made))
}

/// Decides what follows the arrival of a request.
fn arrive(params: RenderParameters, ticks: u64, unix_time: i64, caches: &Caches) -> (next: (
    Stage,
    Action,
))
    ensures
        follows_arrival(
            next.0,
            next.1,
            params@,
            ticks,
            unix_time,
            caches.responses@,
            caches.responses.ttl(),
            caches.spans@,
            caches.spans.ttl(),
        ),
{
    if params.id.is_none() {
        return (Stage::Done, Action::Respond(refusal(&RenderError::MissingId)));
    }
    match cached_response(&params, ticks, caches) {
        Some(response) => {
            return (Stage::Done, Action::Respond(response));
        },
        None => {},
    }
    let plan = match RenderPlan::make(params, ticks, unix_time) {
        Err(error) => {
            return (Stage::Done, Action::Respond(refusal(&error)));
        },
        Ok(plan) => plan,
    };
    match caches.spans.get(plan.user_id(), ticks) {
        Some(held) => start_drawing(plan, held),
        None => {
            let user_id = plan.user_id().clone();
            (Stage::AwaitingSpans(plan), Action::FetchSpans { user_id })
        },
    }
}

/// Whether every document is kept under parameters that ask rightly.
pub open spec fn checked_keys(responses: Seq<CacheEntry<RenderParameters, String>>) -> bool {
    forall|i: int|
        0 <= i < responses.len() ==> request_fault((#[trigger] responses[i]).key@) is None
}

/// Whether `after` is `before` with `value` inserted at the time `ticks`
/// under a key that reads `key`.
pub open spec fn holds_new<K: crate::cache::CacheKey, V>(
    after: Seq<CacheEntry<K, V>>,
    before: Seq<CacheEntry<K, V>>,
    capacity: usize,
    key: K::V,
    value: V,
    ticks: u64,
) -> bool {
    exists|held: K| #[trigger] held@ == key && after == inserted(
        before,
        capacity as nat,
        held,
        value,
        ticks,
    )
}

/// Takes a request one step further.
///
/// `stage` is where the request stands and `event` what has just happened.
/// The result is where the request stands now and what is to be done for it
/// next. The caches change only when spans arrive, which are then kept for
/// their user, and when a document was drawn, which is then kept for the
/// parameters of its request; both are kept from the time at which the
/// request arrived. A fetch that fails leaves both caches as they were. An
/// event that does not belong to the stage ends the request with an internal
/// error. Documents are only ever kept under parameters that ask rightly.
pub fn step(stage: Stage, event: Event, caches: &mut Caches) -> (next: (Stage, Action))
    ensures
        checked_keys(old(caches).responses@) ==> checked_keys(final(caches).responses@),
        final(caches).responses.capacity() == old(caches).responses.capacity(),
        final(caches).responses.ttl() == old(caches).responses.ttl(),
        final(caches).spans.capacity() == old(caches).spans.capacity(),
        final(caches).spans.ttl() == old(caches).spans.ttl(),
        match (stage, event) {
            (Stage::Received, Event::Request { params, ticks, unix_time }) => {
                &&& final(caches).responses@ == old(caches).responses@
                &&& final(caches).spans@ == old(caches).spans@
                &&& follows_arrival(
                    next.0,
                    next.1,
                    params@,
                    ticks,
                    unix_time,
                    old(caches).responses@,
                    old(caches).responses.ttl(),
                    old(caches).spans@,
                    old(caches).spans.ttl(),
                )
            },
            (Stage::AwaitingSpans(plan), Event::SpansFetched(spans)) => {
                &&& final(caches).responses@ == old(caches).responses@
                &&& holds_new(
                    final(caches).spans@,
                    old(caches).spans@,
                    old(caches).spans.capacity(),
                    plan@.user_id,
                    spans,
                    plan@.ticks,
                )
                &&& goes_to_drawing(next.0, next.1, plan@, spans@)
            },
            (Stage::AwaitingSpans(plan), Event::FetchFailed(failure)) => {
                &&& final(caches).responses@ == old(caches).responses@
                &&& final(caches).spans@ == old(caches).spans@
                &&& ends_refused(next.0, next.1, fetch_error(failure))
            },
            (Stage::AwaitingDocument(plan), Event::DocumentDrawn(svg)) => {
                let body = page_text(svg@, plan@.params.standalone);
                &&& final(caches).spans@ == old(caches).spans@
                &&& exists|kept: String| #[trigger]
                    kept@ == body && holds_new(
                        final(caches).responses@,
                        old(caches).responses@,
                        old(caches).responses.capacity(),
                        plan@.params,
                        kept,
                        plan@.ticks,
                    )
                &&& ends_delivered(next.0, next.1, plan@.params.standalone, body)
            },
            _ => {
                &&& final(caches).responses@ == old(caches).responses@
                &&& final(caches).spans@ == old(caches).spans@
                &&& ends_refused(next.0, next.1, RenderError::Internal)
            },
        },
{
    match (stage, event) {
        (Stage::Received, Event::Request { params, ticks, unix_time }) => arrive(
            params,
            ticks,
            unix_time,
            caches,
        ),
        (Stage::AwaitingSpans(plan), Event::SpansFetched(spans)) => {
            let user_id = plan.user_id().clone();
            let ticks = plan.ticks;
            let next = start_drawing(plan, &spans);
            caches.spans.insert(user_id, spans, ticks);
            next
        },
        (Stage::AwaitingSpans(plan), Event::FetchFailed(failure)) => {
            let error = match failure {
                FetchFailure::Unreachable => RenderError::UpstreamFetch,
                FetchFailure::Malformed => RenderError::UpstreamParse,
                FetchFailure::TimedOut => RenderError::UpstreamTimeout,
            };
            (Stage::Done, Action::Respond(refusal(&error)))
        },
        (Stage::AwaitingDocument(plan), Event::DocumentDrawn(svg)) => {
            let body = embed_page(svg.as_str(), plan.params.standalone);
            let response = ok_response(plan.params.standalone, body.clone());
            proof {
                use_type_invariant(&plan);
                let before = caches.responses@;
                let capacity = caches.responses.capacity() as nat;
                let after = inserted(before, capacity, plan.params, body, plan.ticks);
                crate::cache::lemma_inserted_entries(
                    before,
                    capacity,
                    plan.params,
                    body,
                    plan.ticks,
                );
                if checked_keys(before) {
                    assert forall|i: int| 0 <= i < after.len() implies request_fault(
                        (#[trigger] after[i]).key@,
                    ) is None by {
                        if i < after.len() - 1 {
                            let j = choose|j: int| 0 <= j < before.len() && before[j] == after[i];
                            assert(request_fault(before[j].key@) is None);
                        }
                    }
                }
            }
            caches.responses.insert(plan.params, body, plan.ticks);
            (Stage::Done, Action::Respond(response))
        },
        _ => (Stage::Done, Action::Respond(refusal(&RenderError::Internal))),
    }
}

/// A request that comes again with the same parameters, while the document
/// that was drawn for them is live, is answered with that document from the
/// cache: nothing is fetched and nothing is drawn.
///
/// The first request arrived at the cache time `drawn_at`, passed its
/// checks, and had its document `body` kept, which made `after` of
/// `responses`. The second arrives at the cache time `ticks`.
pub proof fn lemma_repeated_request_is_served_from_cache(
    responses: Seq<CacheEntry<RenderParameters, String>>,
    capacity: usize,
    params: RenderParametersView,
    body: String,
    drawn_at: u64,
    first_unix_time: i64,
    after: Seq<CacheEntry<RenderParameters, String>>,
    response_ttl: u64,
    spans: Seq<CacheEntry<String, Vec<Span>>>,
    request_ttl: u64,
    ticks: u64,
    unix_time: i64,
    stage: Stage,
    action: Action,
)
    requires
        crate::cache::distinct_keys(responses),
        plan_of(params, drawn_at, first_unix_time) is Ok,
        holds_new(after, responses, capacity, params, body, drawn_at),
        crate::cache::age(drawn_at, ticks) < response_ttl,
        follows_arrival(
            stage,
            action,
            params,
            ticks,
            unix_time,
            after,
            response_ttl,
            spans,
            request_ttl,
        ),
    ensures
        ends_delivered(stage, action, params.standalone, body@),
        !(action is FetchSpans),
        !(action is Draw),
{
    let held = choose|held: RenderParameters| #[trigger]
        held@ == params && after == inserted(responses, capacity as nat, held, body, drawn_at);
    crate::cache::lemma_found_after_insert(
        responses,
        capacity as nat,
        held,
        body,
        drawn_at,
        ticks,
        response_ttl,
    );
}

/// A request that asks wrongly is refused for its fault, with the status
/// 400, whatever the caches hold, as long as every document is kept under
/// parameters that ask rightly. They are, from empty caches on.
pub proof fn lemma_wrong_request_is_refused(
    params: RenderParametersView,
    fault: RenderError,
    ticks: u64,
    unix_time: i64,
    responses: Seq<CacheEntry<RenderParameters, String>>,
    response_ttl: u64,
    spans: Seq<CacheEntry<String, Vec<Span>>>,
    request_ttl: u64,
    stage: Stage,
    action: Action,
)
    requires
        checked_keys(responses),
        request_fault(params) == Some(fault),
        follows_arrival(
            stage,
            action,
            params,
            ticks,
            unix_time,
            responses,
            response_ttl,
            spans,
            request_ttl,
        ),
    ensures
        ends_refused(stage, action, fault),
        status_code(fault) == 400,
{
    assert forall|i: int| 0 <= i < responses.len() implies (#[trigger] responses[i]).key@
        != params by {
        assert(request_fault(responses[i].key@) is None);
    }
    crate::cache::lemma_key_absent(responses, params);
}

/// One hour reads `1h`.
pub proof fn lemma_one_hour_reads_1h()
    ensures
        human_time_text(3600) == "1h"@,
{
    reveal_strlit("1h");
    reveal_strlit("h");
    reveal_with_fuel(crate::text::decimal, 2);
    assert(human_time_text(3600) =~= "1h"@);
}

/// Where the spans of a user are one span of a minute or more that starts
/// and ends on one day of the range, the layout has one cell for each day
/// of the range, and exactly one of them is lit: the cell of that day has
/// the highest level and the colour of that level, and its label tells the
/// duration and the date; every other cell has level 0 and its colour, and
/// its label tells that there was no activity.
pub proof fn lemma_one_span_lights_one_cell(
    plan: RenderPlanView,
    span: Span,
    day: i32,
    made: HeatmapLayout,
)
    requires
        plan_sound(plan),
        local_day_of(plan.zone, span.start_time) == Some(day),
        local_day_of(plan.zone, span.end_time) == Some(day),
        qualifies(span, plan.window),
        plan.window.first_day <= day <= plan.window.last_day,
        60 <= span.duration <= u32::MAX,
        draws(made, plan, seq![span]),
    ensures
        made.cells@.len() == plan.window.last_day - plan.window.first_day + 1,
        forall|i: int|
            0 <= i < made.cells@.len() ==> (#[trigger] made.cells@[i]).day
                == plan.window.first_day + i,
        ({
            let lit = made.cells@[day - plan.window.first_day]@;
            let told = plan.days[day - plan.window.first_day];
            &&& lit.day == day
            &&& lit.level == 4
            &&& lit.seconds == span.duration
            &&& lit.fill == color_text(theme_colors(plan.params.theme)[4])
            &&& lit.label == human_time_text(span.duration as nat) + " on "@ + told.date_text
                + day_suffix(told.day_of_month as nat)
        }),
        forall|i: int|
            0 <= i < made.cells@.len() && i != day - plan.window.first_day ==> {
                let dark = (#[trigger] made.cells@[i])@;
                &&& dark.level == 0
                &&& dark.seconds == 0
                &&& dark.fill == color_text(theme_colors(plan.params.theme)[0])
                &&& dark.label == "No activity on "@ + plan.days[i].date_text
                    + day_suffix(plan.days[i].day_of_month as nat)
            },
{
    let spans = seq![span];
    let empty = Map::<i32, u32>::empty();
    let buckets = bucketed(spans, plan.zone, plan.window, empty);
    let numbers = day_numbers(plan.days);
    let first = plan.window.first_day;
    let at = day - first;
    crate::utils::lemma_ranges_need_three_numbers(plan.params.ranges);
    assert(buckets == empty.insert(day, span.duration as u32)) by {
        assert(spans.drop_last() =~= Seq::<Span>::empty());
        assert(spans.last() == span);
        reveal_with_fuel(bucketed, 2);
    }
    assert(numbers.len() == plan.days.len());
    assert forall|i: int| 0 <= i < numbers.len() implies plan.days[i].day == first + i by {
        assert(numbers[i] == first + i);
    }
    lemma_max_seconds(buckets, numbers);
    let max = max_seconds(buckets, numbers);
    assert(seconds_on(buckets, numbers[at]) == span.duration);
    assert(max == span.duration) by {
        let i = choose|i: int|
            0 <= i < numbers.len() && seconds_on(buckets, #[trigger] numbers[i]) == max;
        assert(numbers[i] == day);
    }
    let thresholds = plan.thresholds;
    assert(span.duration * 100 >= thresholds[0] * span.duration) by (nonlinear_arith)
        requires
            thresholds[0] <= 100,
            span.duration >= 0,
    ;
    assert forall|i: int| 0 <= i < made.cells@.len() implies (#[trigger] made.cells@[i]).day
        == first + i by {
        assert(made.cells@[i]@.day == plan.days[i].day);
    }
    assert forall|i: int| 0 <= i < made.cells@.len() && i != at implies {
        let dark = (#[trigger] made.cells@[i])@;
        &&& dark.level == 0
        &&& dark.seconds == 0
        &&& dark.fill == color_text(theme_colors(plan.params.theme)[0])
        &&& dark.label == "No activity on "@ + plan.days[i].date_text + day_suffix(
            plan.days[i].day_of_month as nat,
        )
    } by {
        assert(plan.days[i].day != day);
        assert(seconds_on(buckets, plan.days[i].day) == 0);
    }
    assert(made.cells@[at]@.day == day);
    assert(seconds_on(buckets, plan.days[at].day) == span.duration);
}

} // verus!
