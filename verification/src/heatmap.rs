//! From the spans of a user to the cells of the grid.

use crate::buckets::{seconds_on, DayBuckets, Span};
use crate::days::{day_views, DayInfo, DayInfoView};
use crate::palette::{color_hex, color_level, color_text, level_of, theme_colors, theme_palette};
use crate::settings::{DEFAULT_COLS, DEFAULT_ROWS};
use crate::time::{after_span, process_span_into_buckets};
use crate::utils::{cell_label, cell_label_text};
use crate::window::DateWindow;
use crate::zone::Timezone;
use vstd::prelude::*;

verus! {

/// Whether a span counts for a range of days: it must end no earlier than
/// the range starts, and start no later than the range ends. The ends of
/// the range are whole seconds, so the comparison is exact for the whole
/// seconds that bound the span.
pub open spec fn qualifies(span: Span, window: DateWindow) -> bool {
    span.end_bound >= window.start && span.start_bound <= window.end
}

/// `buckets` after the spans that count for `window` were counted, one
/// after the other.
pub open spec fn bucketed(
    spans: Seq<Span>,
    zone: Seq<char>,
    window: DateWindow,
    buckets: Map<i32, u32>,
) -> Map<i32, u32>
    decreases spans.len(),
{
    if spans.len() == 0 {
        buckets
    } else {
        let before = bucketed(spans.drop_last(), zone, window, buckets);
        if qualifies(spans.last(), window) {
            after_span(before, zone, spans.last())
        } else {
            before
        }
    }
}

/// Counts the spans that touch `window` into the days of the zone `tz`.
pub fn bucket_spans(spans: &Vec<Span>, tz: &Timezone, window: &DateWindow) -> (buckets: DayBuckets)
    ensures
        buckets@ == bucketed(spans@, tz@, *window, Map::<i32, u32>::empty()),
{
    let mut buckets = DayBuckets::new();
    let mut i: usize = 0;
    while i < spans.len()
        invariant
            i <= spans@.len(),
            buckets@ == bucketed(spans@.take(i as int), tz@, *window, Map::<i32, u32>::empty()),
        decreases spans@.len() - i,
    {
        assert(spans@.take(i as int + 1).drop_last() =~= spans@.take(i as int));
        let span = spans[i];
        if span.end_bound >= window.start && span.start_bound <= window.end {
            process_span_into_buckets(&span, tz, &mut buckets);
        }
        i = i + 1;
    }
    assert(spans@.take(i as int) =~= spans@);
    buckets
}

/// The most seconds that any of `days` holds; zero for no days.
pub open spec fn max_seconds(buckets: Map<i32, u32>, days: Seq<i32>) -> u32
    decreases days.len(),
{
    if days.len() == 0 {
        0
    } else {
        let before = max_seconds(buckets, days.drop_last());
        let here = seconds_on(buckets, days.last());
        if here > before {
            here
        } else {
            before
        }
    }
}

/// The maximum is no less than the seconds of any of the days, and some day
/// holds it unless it is zero.
pub proof fn lemma_max_seconds(buckets: Map<i32, u32>, days: Seq<i32>)
    ensures
        forall|i: int| 0 <= i < days.len() ==> seconds_on(buckets, #[trigger] days[i])
            <= max_seconds(buckets, days),
        max_seconds(buckets, days) > 0 ==> exists|i: int|
            0 <= i < days.len() && seconds_on(buckets, #[trigger] days[i]) == max_seconds(
                buckets,
                days,
            ),
    decreases days.len(),
{
    if days.len() > 0 {
        let front = days.drop_last();
        lemma_max_seconds(buckets, front);
        assert forall|i: int| 0 <= i < days.len() implies seconds_on(
            buckets,
            #[trigger] days[i],
        ) <= max_seconds(buckets, days) by {
            if i < front.len() {
                assert(front[i] == days[i]);
            }
        }
        if max_seconds(buckets, days) > 0 {
            if seconds_on(buckets, days.last()) > max_seconds(buckets, front) {
                assert(seconds_on(buckets, days[days.len() - 1]) == max_seconds(buckets, days));
            } else {
                let i = choose|i: int|
                    0 <= i < front.len() && seconds_on(buckets, #[trigger] front[i])
                        == max_seconds(buckets, front);
                assert(front[i] == days[i]);
            }
        }
    }
}

/// Finds the most seconds that any of `days` holds.
pub fn max_in_days(buckets: &DayBuckets, days: &Vec<i32>) -> (max: u32)
    ensures
        max == max_seconds(buckets@, days@),
{
    let mut max: u32 = 0;
    let mut i: usize = 0;
    while i < days.len()
        invariant
            i <= days@.len(),
            max == max_seconds(buckets@, days@.take(i as int)),
        decreases days@.len() - i,
    {
        assert(days@.take(i as int + 1).drop_last() =~= days@.take(i as int));
        let here = buckets.get(days[i]);
        if here > max {
            max = here;
        }
        i = i + 1;
    }
    assert(days@.take(i as int) =~= days@);
    max
}

/// One cell of the grid.
#[derive(Debug)]
pub struct Cell {
    /// The calendar day of the cell.
    pub day: i32,
    /// How far the cell stands from the left edge.
    pub x: u64,
    /// How far the cell stands from the top edge.
    pub y: u64,
    /// The side of the cell.
    pub size: u32,
    /// The seconds of activity on the day.
    pub seconds: u32,
    /// The level of the day, from 0 to 4.
    pub level: usize,
    /// The colour of the cell, as `#rrggbb`.
    pub fill: String,
    /// The words that describe the day.
    pub label: String,
}

/// A cell as plain values.
pub struct CellView {
    pub day: i32,
    pub x: u64,
    pub y: u64,
    pub size: u32,
    pub seconds: u32,
    pub level: usize,
    pub fill: Seq<char>,
    pub label: Seq<char>,
}

impl View for Cell {
    type V = CellView;

    open spec fn view(&self) -> CellView {
        CellView {
            day: self.day,
            x: self.x,
            y: self.y,
            size: self.size,
            seconds: self.seconds,
            level: self.level,
            fill: self.fill@,
            label: self.label@,
        }
    }
}

/// A word beside the grid: the name of a month over a column, or the name
/// of a day of the week before a row.
#[derive(Debug)]
pub struct Note {
    /// How far the column stands from the left edge, or the row from the
    /// top edge.
    pub place: u64,
    /// The word.
    pub text: String,
}

/// A note as plain values.
pub struct NoteView {
    pub place: u64,
    pub text: Seq<char>,
}

impl View for Note {
    type V = NoteView;

    open spec fn view(&self) -> NoteView {
        NoteView { place: self.place, text: self.text@ }
    }
}

/// The views of a sequence of notes.
pub open spec fn note_views(notes: Seq<Note>) -> Seq<NoteView> {
    Seq::new(notes.len(), |i: int| notes[i]@)
}

/// Where the grid stands and what it shows: everything that drawing needs.
#[derive(Debug)]
pub struct HeatmapLayout {
    /// The width of the grid.
    pub width: u64,
    /// The height of the grid.
    pub height: u64,
    /// The side of a cell.
    pub cell_size: u32,
    /// How far the corners of a cell are rounded, in percent of its side
    /// and no more than 100. The radius is half of that share of the side.
    pub rounding: u8,
    /// Whether months, weekdays and a legend are written beside the grid.
    pub labels: bool,
    /// The five colours of the theme, from level 0 to level 4, as `#rrggbb`.
    pub legend: Vec<String>,
    /// The cells, first day first.
    pub cells: Vec<Cell>,
    /// The names of the months, each over the column in which the month
    /// starts; none unless `labels` is set.
    pub month_notes: Vec<Note>,
    /// The names of the days of the week, before the second, the fourth and
    /// the sixth row; none unless `labels` is set.
    pub weekday_notes: Vec<Note>,
}

/// The width of the grid: 53 columns with padding between them and at both
/// sides.
pub open spec fn grid_width(cell_size: u32, padding: u32) -> int {
    DEFAULT_COLS * cell_size + padding * (DEFAULT_COLS + 1)
}

/// The height of the grid: 7 rows with padding between them and at both
/// ends.
pub open spec fn grid_height(cell_size: u32, padding: u32) -> int {
    DEFAULT_ROWS * cell_size + padding * (DEFAULT_ROWS + 1)
}

/// How far the cell of a column or a row stands from the edge.
pub open spec fn cell_offset(place: int, cell_size: u32, padding: u32) -> int {
    place * cell_size + padding * (place + 1)
}

/// The grid has room for the first 371 days of a range: each of their
/// cells lies within it, with the padding after it.
pub proof fn lemma_cell_within_grid(index: int, cell_size: u32, padding: u32)
    requires
        0 <= index < DEFAULT_ROWS * DEFAULT_COLS,
    ensures
        cell_offset(index / (DEFAULT_ROWS as int), cell_size, padding) + cell_size + padding
            <= grid_width(cell_size, padding),
        cell_offset(index % (DEFAULT_ROWS as int), cell_size, padding) + cell_size + padding
            <= grid_height(cell_size, padding),
{
    let col = index / (DEFAULT_ROWS as int);
    let row = index % (DEFAULT_ROWS as int);
    assert((col + 1) * cell_size + padding * (col + 2) <= 53 * cell_size + padding * 54)
        by (nonlinear_arith)
        requires
            0 <= col <= 52,
    ;
    assert((row + 1) * cell_size + padding * (row + 2) <= 7 * cell_size + padding * 8)
        by (nonlinear_arith)
        requires
            0 <= row <= 6,
    ;
    assert(col * cell_size + padding * (col + 1) + cell_size + padding == (col + 1) * cell_size
        + padding * (col + 2)) by (nonlinear_arith);
    assert(row * cell_size + padding * (row + 1) + cell_size + padding == (row + 1) * cell_size
        + padding * (row + 2)) by (nonlinear_arith);
}

/// The numbers of the days of a range.
pub open spec fn day_numbers(days: Seq<DayInfoView>) -> Seq<i32> {
    Seq::new(days.len(), |i: int| days[i].day)
}

/// The cell of the day that stands at `index` in the range. The days fill
/// the grid column by column, seven to a column, from the top.
pub open spec fn cell_at(
    index: int,
    day: DayInfoView,
    buckets: Map<i32, u32>,
    max: u32,
    thresholds: Seq<u32>,
    colors: Seq<(u8, u8, u8)>,
    cell_size: u32,
    padding: u32,
) -> CellView {
    let seconds = seconds_on(buckets, day.day);
    let level = level_of(seconds as nat, max as nat, thresholds);
    CellView {
        day: day.day,
        x: cell_offset(index / (DEFAULT_ROWS as int), cell_size, padding) as u64,
        y: cell_offset(index % (DEFAULT_ROWS as int), cell_size, padding) as u64,
        size: cell_size,
        seconds,
        level: level as usize,
        fill: color_text(colors[level as int]),
        label: cell_label_text(seconds, day.date_text, day.day_of_month),
    }
}

/// The names of the months over the grid, for the first `upto` days of the
/// range: each first day of a month has the short name of its month over
/// its column.
pub open spec fn month_notes_of(days: Seq<DayInfoView>, cell_size: u32, padding: u32, upto: int)
    -> Seq<NoteView>
    decreases upto,
{
    if upto <= 0 || upto > days.len() {
        Seq::empty()
    } else {
        let before = month_notes_of(days, cell_size, padding, upto - 1);
        let day = days[upto - 1];
        if day.day_of_month == 1 {
            before.push(
                NoteView {
                    place: cell_offset((upto - 1) / (DEFAULT_ROWS as int), cell_size, padding)
                        as u64,
                    text: day.month_text,
                },
            )
        } else {
            before
        }
    }
}

/// The names of the days of the week before the grid, for the first `upto`
/// days of the range: the second, the fourth and the sixth day of the range
/// have the short name of their day of the week before their row.
pub open spec fn weekday_notes_of(
    days: Seq<DayInfoView>,
    cell_size: u32,
    padding: u32,
    upto: int,
) -> Seq<NoteView>
    decreases upto,
{
    if upto <= 0 || upto > days.len() || upto > DEFAULT_ROWS {
        Seq::empty()
    } else {
        let before = weekday_notes_of(days, cell_size, padding, upto - 1);
        let day = days[upto - 1];
        if (upto - 1) % 2 == 1 {
            before.push(
                NoteView {
                    place: cell_offset(upto - 1, cell_size, padding) as u64,
                    text: day.weekday_text,
                },
            )
        } else {
            before
        }
    }
}

/// The days of a range that have rows of their own: the first seven.
pub open spec fn first_rows(days: int) -> int {
    if days < DEFAULT_ROWS {
        days
    } else {
        DEFAULT_ROWS as int
    }
}

/// Whether `made` is the layout of the days `days`: the grid has room for
/// 53 columns of 7 cells, the rounding is held at 100, the legend shows the
/// five colours of the theme, each day has its cell, and the notes are
/// there where `labels` asks for them.
pub open spec fn lays_out(
    made: HeatmapLayout,
    cell_size: u32,
    padding: u32,
    rounding: u8,
    labels: bool,
    theme: Seq<char>,
    thresholds: Seq<u32>,
    days: Seq<DayInfoView>,
    buckets: Map<i32, u32>,
) -> bool {
    let max = max_seconds(buckets, day_numbers(days));
    let colors = theme_colors(theme);
    &&& made.width == grid_width(cell_size, padding)
    &&& made.height == grid_height(cell_size, padding)
    &&& made.cell_size == cell_size
    &&& made.rounding == if rounding > 100 {
        100u8
    } else {
        rounding
    }
    &&& made.labels == labels
    &&& made.legend@.len() == 5
    &&& forall|level: int|
        0 <= level < 5 ==> (#[trigger] made.legend@[level])@ == color_text(colors[level])
    &&& made.cells@.len() == days.len()
    &&& forall|i: int|
        0 <= i < days.len() ==> (#[trigger] made.cells@[i])@ == cell_at(
            i,
            days[i],
            buckets,
            max,
            thresholds,
            colors,
            cell_size,
            padding,
        )
    &&& note_views(made.month_notes@) == if labels {
        month_notes_of(days, cell_size, padding, days.len() as int)
    } else {
        Seq::empty()
    }
    &&& note_views(made.weekday_notes@) == if labels {
        weekday_notes_of(days, cell_size, padding, first_rows(days.len() as int))
    } else {
        Seq::empty()
    }
}

/// Lists the numbers of the days of a range.
fn numbers_of(days: &Vec<DayInfo>) -> (numbers: Vec<i32>)
    ensures
        numbers@ == day_numbers(day_views(days@)),
{
    let mut numbers: Vec<i32> = Vec::new();
    let mut i: usize = 0;
    while i < days.len()
        invariant
            i <= days@.len(),
            numbers@.len() == i,
            forall|j: int| 0 <= j < i ==> numbers@[j] == days@[j].day,
        decreases days@.len() - i,
    {
        numbers.push(days[i].day);
        i = i + 1;
    }
    assert(numbers@ =~= day_numbers(day_views(days@)));
    numbers
}

/// How far the cell of a column or a row stands from the edge.
fn offset(place: u64, cell_size: u32, padding: u32) -> (far: u64)
    requires
        place <= 0x2492_4924,
    ensures
        far == cell_offset(place as int, cell_size, padding),
{
    assert(place * cell_size <= 0x2492_4924 * 0xffff_ffff) by (nonlinear_arith)
        requires
            0 <= place <= 0x2492_4924,
            0 <= cell_size <= 0xffff_ffff,
    ;
    assert(padding * (place + 1) <= 0xffff_ffff * 0x2492_4925) by (nonlinear_arith)
        requires
            0 <= place <= 0x2492_4924,
            0 <= padding <= 0xffff_ffff,
    ;
    place * (cell_size as u64) + (padding as u64) * (place + 1)
}

/// Writes the names of the months over the grid.
fn month_notes(days: &Vec<DayInfo>, cell_size: u32, padding: u32) -> (notes: Vec<Note>)
    requires
        days@.len() <= 0x1_0000_0000,
    ensures
        note_views(notes@) == month_notes_of(
            day_views(days@),
            cell_size,
            padding,
            days@.len() as int,
        ),
{
    let ghost views = day_views(days@);
    let mut notes: Vec<Note> = Vec::new();
    let mut i: usize = 0;
    while i < days.len()
        invariant
            i <= days@.len() <= 0x1_0000_0000,
            views == day_views(days@),
            note_views(notes@) == month_notes_of(views, cell_size, padding, i as int),
        decreases days@.len() - i,
    {
        let ghost before = note_views(notes@);
        if days[i].day_of_month == 1 {
            let place = offset((i / DEFAULT_ROWS) as u64, cell_size, padding);
            notes.push(Note { place, text: days[i].month_text.clone() });
            assert(note_views(notes@) =~= before.push(notes@[notes@.len() - 1]@));
        }
        i = i + 1;
    }
    notes
}

/// Writes the names of the days of the week before the grid.
fn weekday_notes(days: &Vec<DayInfo>, cell_size: u32, padding: u32) -> (notes: Vec<Note>)
    ensures
        note_views(notes@) == weekday_notes_of(
            day_views(days@),
            cell_size,
            padding,
            first_rows(days@.len() as int),
        ),
{
    let ghost views = day_views(days@);
    let mut notes: Vec<Note> = Vec::new();
    let mut i: usize = 0;
    while i < days.len() && i < DEFAULT_ROWS
        invariant
            i <= days@.len(),
            i <= DEFAULT_ROWS,
            views == day_views(days@),
            note_views(notes@) == weekday_notes_of(views, cell_size, padding, i as int),
        decreases DEFAULT_ROWS - i,
    {
        let ghost before = note_views(notes@);
        if i % 2 == 1 {
            let place = offset(i as u64, cell_size, padding);
            notes.push(Note { place, text: days[i].weekday_text.clone() });
            assert(note_views(notes@) =~= before.push(notes@[notes@.len() - 1]@));
        }
        i = i + 1;
    }
    notes
}

/// Lays the days of a range out as cells, coloured by their share of the
/// busiest day of the range.
pub fn layout_heatmap(
    cell_size: u32,
    padding: u32,
    rounding: u8,
    labels: bool,
    theme: &String,
    thresholds: &Vec<u32>,
    days: &Vec<DayInfo>,
    buckets: &DayBuckets,
) -> (layout: HeatmapLayout)
    requires
        thresholds@.len() >= 3,
        days@.len() <= 0x1_0000_0000,
    ensures
        lays_out(
            layout,
            cell_size,
            padding,
            rounding,
            labels,
            theme@,
            thresholds@,
            day_views(days@),
            buckets@,
        ),
{
    let max = max_in_days(buckets, &numbers_of(days));
    let palette = theme_palette(theme);
    let ghost colors = theme_colors(theme@);
    let ghost views = day_views(days@);
    let mut legend: Vec<String> = Vec::new();
    let mut level: usize = 0;
    while level < 5
        invariant
            level <= 5,
            legend@.len() == level,
            palette.colors@.len() == 5,
            forall|l: int| 0 <= l < level ==> (#[trigger] legend@[l])@ == color_text(
                palette.colors@[l],
            ),
        decreases 5 - level,
    {
        legend.push(color_hex(palette.get_color(level)));
        level = level + 1;
    }
    let mut cells: Vec<Cell> = Vec::new();
    let mut i: usize = 0;
    while i < days.len()
        invariant
            i <= days@.len() <= 0x1_0000_0000,
            views == day_views(days@),
            thresholds@.len() >= 3,
            palette.colors@ == colors,
            colors.len() == 5,
            cells@.len() == i,
            forall|j: int|
                0 <= j < i ==> (#[trigger] cells@[j])@ == cell_at(
                    j,
                    views[j],
                    buckets@,
                    max,
                    thresholds@,
                    colors,
                    cell_size,
                    padding,
                ),
        decreases days@.len() - i,
    {
        let day = &days[i];
        let seconds = buckets.get(day.day);
        let label = cell_label(seconds, day.date_text.as_str(), day.day_of_month);
        let x = offset((i / DEFAULT_ROWS) as u64, cell_size, padding);
        let y = offset((i % DEFAULT_ROWS) as u64, cell_size, padding);
        let level = color_level(seconds, max, thresholds.as_slice());
        let fill = color_hex(palette.get_color(level));
        cells.push(Cell { day: day.day, x, y, size: cell_size, seconds, level, fill, label });
        i = i + 1;
    }
    let cell: u64 = cell_size as u64;
    let pad: u64 = padding as u64;
    let month_notes = if labels {
        month_notes(days, cell_size, padding)
    } else {
        Vec::new()
    };
    let weekday_notes = if labels {
        weekday_notes(days, cell_size, padding)
    } else {
        Vec::new()
    };
    assert(!labels ==> note_views(month_notes@) =~= Seq::<NoteView>::empty());
    assert(!labels ==> note_views(weekday_notes@) =~= Seq::<NoteView>::empty());
    HeatmapLayout {
        width: 53 * cell + pad * 54,
        height: 7 * cell + pad * 8,
        cell_size,
        rounding: if rounding > 100 {
            100
        } else {
            rounding
        },
        labels,
        legend,
        cells,
        month_notes,
        weekday_notes,
    }
}

} // verus!
