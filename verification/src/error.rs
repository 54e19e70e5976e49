//! What can go wrong with a request, and how it is answered.

use crate::utils::{ranges_error_text, ranges_message, RangesError};
use vstd::prelude::*;

verus! {

/// An end of the range of days that a request asks for.
#[derive(Clone, Copy, Debug, PartialEq, Eq, Structural)]
pub enum DateBoundary {
    /// The first day of the range, or its first second.
    Start,
    /// The last day of the range, or its last second.
    End,
}

/// Why a request gets no document.
#[derive(Clone, Copy, Debug, PartialEq, Eq, Structural)]
pub enum RenderError {
    /// The request names no user.
    MissingId,
    /// The thresholds are refused.
    InvalidRanges(RangesError),
    /// The time zone is not known.
    UnsupportedTimezone,
    /// The year is neither four digits nor `current`.
    InvalidYear,
    /// An end of the range of days cannot be placed in time: the wall clock
    /// of the zone never shows it, or shows it twice.
    DateResolution(DateBoundary),
    /// The spans of the user could not be fetched.
    UpstreamFetch,
    /// What was fetched could not be read.
    UpstreamParse,
    /// The upstream service took too long.
    UpstreamTimeout,
    /// The service itself failed.
    Internal,
}

/// The HTTP status of a refusal: 400 for what the request got wrong, 504
/// for an upstream service that took too long, and 500 for every other
/// failure.
pub open spec fn status_code(error: RenderError) -> u16 {
    match error {
        RenderError::MissingId => 400,
        RenderError::InvalidRanges(_) => 400,
        RenderError::UnsupportedTimezone => 400,
        RenderError::InvalidYear => 400,
        RenderError::DateResolution(_) => 500,
        RenderError::UpstreamFetch => 500,
        RenderError::UpstreamParse => 500,
        RenderError::UpstreamTimeout => 504,
        RenderError::Internal => 500,
    }
}

/// The words that answer a refused request. Failures that are not the
/// request's fault are answered without words, but for a range of days that
/// cannot be placed in time, which names the end at fault.
pub open spec fn error_message(error: RenderError) -> Seq<char> {
    match error {
        RenderError::MissingId => "Missing required parameter: id"@,
        RenderError::InvalidRanges(fault) => ranges_message(fault),
        RenderError::UnsupportedTimezone => "Unsupported timezone"@,
        RenderError::InvalidYear => "Invalid year parameter, must be a four-digit year or current"@,
        RenderError::DateResolution(DateBoundary::Start) =>
            "Invalid date for the start of the range"@,
        RenderError::DateResolution(DateBoundary::End) => "Invalid date for the end of the range"@,
        RenderError::UpstreamFetch => ""@,
        RenderError::UpstreamParse => ""@,
        RenderError::UpstreamTimeout => ""@,
        RenderError::Internal => ""@,
    }
}

impl RenderError {
    /// The HTTP status that answers this refusal.
    pub fn status(&self) -> (code: u16)
        ensures
            code == status_code(*self),
            code == 400 || code == 500 || code == 504,
    {
        match self {
            RenderError::MissingId => 400,
            RenderError::InvalidRanges(_) => 400,
            RenderError::UnsupportedTimezone => 400,
            RenderError::InvalidYear => 400,
            RenderError::DateResolution(_) => 500,
            RenderError::UpstreamFetch => 500,
            RenderError::UpstreamParse => 500,
            RenderError::UpstreamTimeout => 504,
            RenderError::Internal => 500,
        }
    }

    /// The words that answer this refusal.
    pub fn message(&self) -> (text: String)
        ensures
            text@ == error_message(*self),
    {
        match self {
            RenderError::MissingId => String::from_str("Missing required parameter: id"),
            RenderError::InvalidRanges(fault) => ranges_error_text(fault),
            RenderError::UnsupportedTimezone => String::from_str("Unsupported timezone"),
            RenderError::InvalidYear => String::from_str(
                "Invalid year parameter, must be a four-digit year or current",
            ),
            RenderError::DateResolution(DateBoundary::Start) => String::from_str(
                "Invalid date for the start of the range",
            ),
            RenderError::DateResolution(DateBoundary::End) => String::from_str(
                "Invalid date for the end of the range",
            ),
            RenderError::UpstreamFetch => String::from_str(""),
            RenderError::UpstreamParse => String::from_str(""),
            RenderError::UpstreamTimeout => String::from_str(""),
            RenderError::Internal => String::from_str(""),
        }
    }
}

} // verus!
