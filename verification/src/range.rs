//! Ranges of days, and the ranges that a picker offers at one click.

use crate::month::{
    first_day_of_month, first_day_view, fits, last_day_of_month, last_day_view, lemma_month_start,
    month_end, month_start, week_start,
};
use crate::time::{date_text, lemma_day_number_injective, Duration, NaiveDate};
use vstd::math::{max, min};
use vstd::prelude::*;

verus! {

/// The days from `start` to `end`, both included. A range whose two ends are
/// the same day is a single selected day.
///
/// The two fields can be set freely; `new` puts them in order, and `wf` says
/// that they are.
#[derive(Clone, Copy, Debug, PartialEq, Eq, Structural)]
pub struct DateRange {
    pub start: NaiveDate,
    pub end: NaiveDate,
}

impl DateRange {
    /// Whether the range starts no later than it ends.
    pub open spec fn wf(self) -> bool {
        self.start@ <= self.end@
    }

    /// The range between two days, given in any order.
    pub open spec fn spec_new(a: NaiveDate, b: NaiveDate) -> DateRange {
        if a@ <= b@ {
            DateRange { start: a, end: b }
        } else {
            DateRange { start: b, end: a }
        }
    }

    /// Whether `date` lies in the range.
    pub open spec fn spec_contains(self, date: NaiveDate) -> bool {
        self.start@ <= date@ <= self.end@
    }

    /// Whether the range is a single day.
    pub open spec fn is_single(self) -> bool {
        self.start == self.end
    }

    /// The range between `a` and `b`, which may come in any order.
    pub fn new(a: NaiveDate, b: NaiveDate) -> (range: Self)
        ensures
            range == Self::spec_new(a, b),
            range.wf(),
    {
        if a <= b {
            Self { start: a, end: b }
        } else {
            Self { start: b, end: a }
        }
    }

    /// Whether `date` lies in the range, its two ends included.
    pub fn contains(&self, date: &NaiveDate) -> (inside: bool)
        ensures
            inside == self.spec_contains(*date),
    {
        *date >= self.start && *date <= self.end
    }
}

/// A range made by `new` is in order whatever the order of its two days, and
/// holds both of them.
pub proof fn lemma_new_is_ordered(a: NaiveDate, b: NaiveDate)
    ensures
        DateRange::spec_new(a, b).wf(),
        DateRange::spec_new(a, b) == DateRange::spec_new(b, a),
        DateRange::spec_new(a, b).spec_contains(a),
        DateRange::spec_new(a, b).spec_contains(b),
{
    lemma_day_number_injective(a, b);
}

/// The range from a day to itself holds that day, and is a single day.
pub proof fn lemma_single_day_range(a: NaiveDate)
    ensures
        DateRange::spec_new(a, a).spec_contains(a),
        DateRange::spec_new(a, a).is_single(),
        DateRange::spec_new(a, a) == (DateRange { start: a, end: a }),
{
}

/// The range that a picker shows while the pointer is over a day: with one
/// day picked and a day under the pointer, the range between the two, else the
/// picked range as it is.
pub open spec fn range_preview_spec(
    range: Option<DateRange>,
    hovered: Option<NaiveDate>,
) -> Option<DateRange> {
    match (range, hovered) {
        (Some(active), Some(hover)) => if active.is_single() {
            Some(DateRange::spec_new(active.start, hover))
        } else {
            Some(active)
        },
        (Some(active), None) => Some(active),
        (None, _) => None,
    }
}

/// The range to show for the picked range `range` while the pointer is over
/// `hovered`.
pub fn range_preview(range: Option<DateRange>, hovered: Option<NaiveDate>) -> (preview: Option<
    DateRange,
>)
    ensures
        preview == range_preview_spec(range, hovered),
{
    match range {
        Some(active) => match hovered {
            Some(hover) => if active.start == active.end {
                Some(DateRange::new(active.start, hover))
            } else {
                Some(active)
            },
            None => Some(active),
        },
        None => None,
    }
}

/// The week of `today`, from its Monday to its Sunday. Both days must be
/// days that a `NaiveDate` can hold.
pub fn quick_range_week(today: NaiveDate) -> (week: DateRange)
    requires
        fits(week_start(today@)),
        fits(week_start(today@) + 6),
    ensures
        week.start@ == week_start(today@),
        week.end@ == week_start(today@) + 6,
        week.spec_contains(today),
{
    let start = today - Duration::days(today.weekday().num_days_from_monday() as i64);
    let end = start + Duration::days(6);
    DateRange::new(start, end)
}

/// The month of `today`, from its first day to its last: the range between
/// what `first_day_of_month` and `last_day_of_month` give.
pub fn quick_range_month(today: NaiveDate) -> (month: DateRange)
    ensures
        month.start@ == min(first_day_view(today@), last_day_view(today@)),
        month.end@ == max(first_day_view(today@), last_day_view(today@)),
        fits(month_start(today@)) && fits(month_end(today@) + 1) ==> month.start@ == month_start(
            today@,
        ) && month.end@ == month_end(today@) && month.spec_contains(today),
{
    let start = first_day_of_month(today);
    let end = last_day_of_month(today);
    proof {
        lemma_month_start(today@);
    }
    DateRange::new(start, end)
}

/// The text that names a range: a single day as `%b %d %Y`, a longer range as
/// its first day as `%b %d`, an arrow, and its last day as `%b %d %Y`.
pub open spec fn describe_range_spec(range: DateRange) -> Seq<char> {
    if range.is_single() {
        date_text(range.start@, "%b %d %Y"@)
    } else {
        date_text(range.start@, "%b %d"@) + " → "@ + date_text(range.end@, "%b %d %Y"@)
    }
}

/// The text that names `range`.
pub fn describe_range(range: DateRange) -> (text: String)
    ensures
        text@ == describe_range_spec(range),
{
    if range.start == range.end {
        range.start.format("%b %d %Y").to_string()
    } else {
        let mut text = range.start.format("%b %d").to_string();
        text.append(" → ");
        text.append(range.end.format("%b %d %Y").to_string().as_str());
        text
    }
}

} // verus!
