//! The fixed sizes and defaults of the service.

use vstd::prelude::*;

verus! {

/// The rows of the grid: one for each day of a week.
pub const DEFAULT_ROWS: usize = 7;

/// The columns of the grid.
pub const DEFAULT_COLS: usize = 53;

/// How long a rendered document is served from the cache, in seconds.
pub const RESPONSE_CACHE_DURATION_SECONDS: u64 = 300;

/// How long the spans of a user are kept, in seconds.
pub const REQUEST_CACHE_DURATION_SECONDS: u64 = 300;

/// The most rendered documents that are kept.
pub const MAX_RESPONSE_CACHE_ENTRIES: usize = 200;

/// The most users whose spans are kept.
pub const MAX_REQUEST_CACHE_ENTRIES: usize = 25;

/// The ticks of the caches that make one second: the caches of the service
/// count time in nanoseconds.
pub const TICKS_PER_SECOND: u64 = 1_000_000_000;

/// The seconds of the window that ends today when no year is asked for.
pub const TRAILING_WINDOW_SECONDS: i64 = 31_536_000;

/// The time zone of a request that names none.
pub fn default_timezone() -> (name: String)
    ensures
        name@ == "Europe/London"@,
{
    String::from_str("Europe/London")
}

/// The side of a cell of a request that gives none.
pub fn default_cell_size() -> (size: u32)
    ensures
        size == 15,
{
    15
}

/// The space between cells of a request that gives none.
pub fn default_padding() -> (padding: u32)
    ensures
        padding == 2,
{
    2
}

/// The rounding of the corners, in percent, of a request that gives none.
pub fn default_rounding() -> (rounding: u8)
    ensures
        rounding == 50,
{
    50
}

/// The theme of a request that names none.
pub fn default_theme() -> (name: String)
    ensures
        name@ == "dark"@,
{
    String::from_str("dark")
}

/// The thresholds of a request that gives none.
pub fn default_ranges() -> (ranges: String)
    ensures
        ranges@ == "70,30,10"@,
{
    String::from_str("70,30,10")
}

/// Whether a request that does not say so asks for a whole page.
pub fn default_standalone() -> (standalone: bool)
    ensures
        !standalone,
{
    false
}

/// Whether a request that does not say so asks for annotations.
pub fn default_labels() -> (labels: bool)
    ensures
        !labels,
{
    false
}

} // verus!
