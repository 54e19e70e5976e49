//! Calendar heatmap of tracked activity.
//!
//! The library turns the recorded spans of a user into one cell per calendar
//! day of a chosen time zone, coloured by how the day compares with the
//! busiest day of the range, and decides how a request for such a heatmap is
//! served from two bounded caches.
//!
//! - [`time`] spreads spans over the days of a time zone; [`buckets`] holds
//!   the totals per day.
//! - [`palette`] maps a day's total to a level from 0 to 4 and to a colour.
//! - [`cache`] is a cache that is bounded in size and in time.
//! - [`render`] takes a request from its parameters to its response;
//!   [`window`] finds the range of days that it shows, [`days`] asks the
//!   calendar about each of them, and [`heatmap`] lays them out as cells.
//! - [`zone`] and [`calendar`] are the boundary to the time-zone database and
//!   the calendar.

pub mod buckets;
pub mod cache;
pub mod calendar;
pub mod days;
pub mod error;
pub mod heatmap;
pub mod page;
pub mod palette;
pub mod params;
pub mod render;
pub mod settings;
pub mod text;
pub mod time;
pub mod utils;
pub mod window;
pub mod zone;
