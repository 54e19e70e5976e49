//! The parameters of a request, which are also the key under which its
//! rendered document is kept.

use crate::cache::CacheKey;
use crate::settings::{
    default_cell_size, default_labels, default_padding, default_ranges, default_rounding,
    default_standalone, default_theme, default_timezone,
};
use vstd::prelude::*;

verus! {

/// Everything that a request can ask for.
#[derive(Debug, PartialEq, Eq, Hash)]
pub struct RenderParameters {
    /// The user whose activity is shown. A request without it is refused.
    pub id: Option<String>,
    /// The name of the time zone in which days are counted.
    pub timezone: String,
    /// The side of a cell.
    pub cell_size: u32,
    /// The space between cells, and around them.
    pub padding: u32,
    /// How far the corners of a cell are rounded, in percent of its side.
    pub rounding: u8,
    /// The name of the colour theme.
    pub theme: String,
    /// The three thresholds, as the request wrote them.
    pub ranges: String,
    /// Whether the document is wrapped in a page of its own.
    pub standalone: bool,
    /// Whether months, weekdays and a legend are written beside the grid.
    pub labels: bool,
    /// The year to show, or `current`; the last 365 days where it is absent.
    pub year: Option<String>,
}

/// The parameters of a request as plain values.
pub struct RenderParametersView {
    pub id: Option<Seq<char>>,
    pub timezone: Seq<char>,
    pub cell_size: u32,
    pub padding: u32,
    pub rounding: u8,
    pub theme: Seq<char>,
    pub ranges: Seq<char>,
    pub standalone: bool,
    pub labels: bool,
    pub year: Option<Seq<char>>,
}

/// An optional text as plain values.
pub open spec fn option_text(text: Option<String>) -> Option<Seq<char>> {
    match text {
        Some(held) => Some(held@),
        None => None,
    }
}

impl View for RenderParameters {
    type V = RenderParametersView;

    open spec fn view(&self) -> RenderParametersView {
        RenderParametersView {
            id: option_text(self.id),
            timezone: self.timezone@,
            cell_size: self.cell_size,
            padding: self.padding,
            rounding: self.rounding,
            theme: self.theme@,
            ranges: self.ranges@,
            standalone: self.standalone,
            labels: self.labels,
            year: option_text(self.year),
        }
    }
}

/// Whether two optional texts hold the same.
pub fn same_option_text(a: &Option<String>, b: &Option<String>) -> (same: bool)
    ensures
        same == (option_text(*a) == option_text(*b)),
{
    match (a, b) {
        (Some(left), Some(right)) => *left == *right,
        (None, None) => true,
        _ => false,
    }
}

/// Copies an optional text.
pub fn copy_option_text(text: &Option<String>) -> (copy: Option<String>)
    ensures
        option_text(copy) == option_text(*text),
{
    match text {
        Some(held) => Some(held.clone()),
        None => None,
    }
}

impl RenderParameters {
    /// The parameters of a request for `id` that says nothing else.
    pub fn with_defaults(id: Option<String>) -> (params: RenderParameters)
        ensures
            params.id == id,
            params.timezone@ == "Europe/London"@,
            params.cell_size == 15,
            params.padding == 2,
            params.rounding == 50,
            params.theme@ == "dark"@,
            params.ranges@ == "70,30,10"@,
            !params.standalone,
            !params.labels,
            params.year is None,
    {
        RenderParameters {
            id,
            timezone: default_timezone(),
            cell_size: default_cell_size(),
            padding: default_padding(),
            rounding: default_rounding(),
            theme: default_theme(),
            ranges: default_ranges(),
            standalone: default_standalone(),
            labels: default_labels(),
            year: None,
        }
    }
}

impl Clone for RenderParameters {
    fn clone(&self) -> (copy: Self)
        ensures
            copy@ == self@,
    {
        RenderParameters {
            id: copy_option_text(&self.id),
            timezone: self.timezone.clone(),
            cell_size: self.cell_size,
            padding: self.padding,
            rounding: self.rounding,
            theme: self.theme.clone(),
            ranges: self.ranges.clone(),
            standalone: self.standalone,
            labels: self.labels,
            year: copy_option_text(&self.year),
        }
    }
}

impl CacheKey for RenderParameters {
    fn same_key(&self, other: &Self) -> (same: bool) {
        same_option_text(&self.id, &other.id) && self.timezone == other.timezone && self.cell_size
            == other.cell_size && self.padding == other.padding && self.rounding == other.rounding
            && self.theme == other.theme && self.ranges == other.ranges && self.standalone
            == other.standalone && self.labels == other.labels && same_option_text(
            &self.year,
            &other.year,
        )
    }
}

} // verus!
