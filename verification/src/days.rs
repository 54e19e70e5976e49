//! What the calendar says of the days of a range: what their labels and the
//! notes beside the grid are written from.

use crate::calendar::{civil_date, civil_date_of, formatted_day, formatted_day_of};
use crate::error::{DateBoundary, RenderError};
use crate::time::{date_range, generate_date_range};
use crate::utils::LABEL_DATE_FORMAT;
use crate::window::DateWindow;
use vstd::prelude::*;

verus! {

/// The format of the short name of a month.
pub const MONTH_FORMAT: &'static str = "%b";

/// The format of the short name of a day of the week.
pub const WEEKDAY_FORMAT: &'static str = "%a";

/// A calendar day with what the calendar says of it.
#[derive(Debug)]
pub struct DayInfo {
    /// The number of the day.
    pub day: i32,
    /// The day of the month, from 1 to 31.
    pub day_of_month: u32,
    /// The name of the month and the day of the month, as in `March 7`.
    pub date_text: String,
    /// The short name of the month, as in `Mar`.
    pub month_text: String,
    /// The short name of the day of the week, as in `Mon`.
    pub weekday_text: String,
}

/// A day with what the calendar says of it, as plain values.
pub struct DayInfoView {
    pub day: i32,
    pub day_of_month: u32,
    pub date_text: Seq<char>,
    pub month_text: Seq<char>,
    pub weekday_text: Seq<char>,
}

impl View for DayInfo {
    type V = DayInfoView;

    open spec fn view(&self) -> DayInfoView {
        DayInfoView {
            day: self.day,
            day_of_month: self.day_of_month,
            date_text: self.date_text@,
            month_text: self.month_text@,
            weekday_text: self.weekday_text@,
        }
    }
}

/// What the calendar says of a day, or `None` for a day number that the
/// calendar does not reach.
pub open spec fn day_info_of(day: i32) -> Option<DayInfoView> {
    match (
        civil_date_of(day),
        formatted_day_of(day, LABEL_DATE_FORMAT@),
        formatted_day_of(day, MONTH_FORMAT@),
        formatted_day_of(day, WEEKDAY_FORMAT@),
    ) {
        (Some(date), Some(date_text), Some(month_text), Some(weekday_text)) => Some(
            DayInfoView { day, day_of_month: date.2, date_text, month_text, weekday_text },
        ),
        _ => None,
    }
}

/// Where the first of `days` stands of which the calendar says nothing,
/// looking from `from` on; the number of days where there is none.
pub open spec fn first_unknown(days: Seq<i32>, from: int) -> int
    decreases days.len() - from,
{
    if from < 0 || from >= days.len() {
        days.len() as int
    } else if day_info_of(days[from]) is None {
        from
    } else {
        first_unknown(days, from + 1)
    }
}

/// The first unknown day stands at `from` or after it, the calendar knows
/// every day before it, and it is itself unknown.
pub proof fn lemma_first_unknown(days: Seq<i32>, from: int)
    requires
        0 <= from <= days.len(),
    ensures
        from <= first_unknown(days, from) <= days.len(),
        forall|i: int| from <= i < first_unknown(days, from) ==> day_info_of(days[i]) is Some,
        first_unknown(days, from) < days.len() ==> day_info_of(
            days[first_unknown(days, from)],
        ) is None,
    decreases days.len() - from,
{
    if from < days.len() && day_info_of(days[from]) is Some {
        lemma_first_unknown(days, from + 1);
    }
}

/// What the calendar says of each of `days`, in order. Where it says
/// nothing of one of them, the range cannot be resolved: the fault is at its
/// start where that is the first day, and at its end for any later day.
pub open spec fn day_infos_of(days: Seq<i32>) -> Result<Seq<DayInfoView>, RenderError> {
    let unknown = first_unknown(days, 0);
    if unknown >= days.len() {
        Ok(Seq::new(days.len(), |i: int| day_info_of(days[i])->0))
    } else if unknown == 0 {
        Err(RenderError::DateResolution(DateBoundary::Start))
    } else {
        Err(RenderError::DateResolution(DateBoundary::End))
    }
}

/// Asks the calendar about one day.
pub fn day_info(day: i32) -> (info: Option<DayInfo>)
    ensures
        match day_info_of(day) {
            Some(said) => info is Some && info->0@ == said,
            None => info is None,
        },
{
    let date = civil_date(day);
    let date_text = formatted_day(day, LABEL_DATE_FORMAT);
    let month_text = formatted_day(day, MONTH_FORMAT);
    let weekday_text = formatted_day(day, WEEKDAY_FORMAT);
    match (date, date_text, month_text, weekday_text) {
        (Some(date), Some(date_text), Some(month_text), Some(weekday_text)) => Some(
            DayInfo { day, day_of_month: date.2, date_text, month_text, weekday_text },
        ),
        _ => None,
    }
}

/// The views of a sequence of days.
pub open spec fn day_views(days: Seq<DayInfo>) -> Seq<DayInfoView> {
    Seq::new(days.len(), |i: int| days[i]@)
}

/// Asks the calendar about every day of a range.
pub fn resolve_days(window: &DateWindow) -> (infos: Result<Vec<DayInfo>, RenderError>)
    ensures
        match day_infos_of(date_range(window.first_day, window.last_day)) {
            Ok(said) => infos is Ok && day_views(infos->Ok_0@) == said,
            Err(error) => infos == Err::<Vec<DayInfo>, RenderError>(error),
        },
{
    let days = generate_date_range(window.first_day, window.last_day);
    let mut infos: Vec<DayInfo> = Vec::new();
    let mut i: usize = 0;
    while i < days.len()
        invariant
            i <= days@.len(),
            days@ == date_range(window.first_day, window.last_day),
            infos@.len() == i,
            first_unknown(days@, 0) == first_unknown(days@, i as int),
            forall|j: int| 0 <= j < i ==> day_info_of(days@[j]) == Some((#[trigger] infos@[j])@),
        decreases days@.len() - i,
    {
        match day_info(days[i]) {
            Some(info) => {
                infos.push(info);
            },
            None => {
                if i == 0 {
                    return Err(RenderError::DateResolution(DateBoundary::Start));
                } else {
                    return Err(RenderError::DateResolution(DateBoundary::End));
                }
            },
        }
        i = i + 1;
    }
    assert(day_views(infos@) =~= Seq::new(days@.len(), |i: int| day_info_of(days@[i])->0));
    Ok(infos)
}

} // verus!
