//! Month arithmetic and the grid of days that a month view shows.
//!
//! Months are counted on one line: month `12 * year + month - 1` is month
//! `month` of year `year`. Moving by months moves along that line and lands
//! on the first day of the month reached. A `NaiveDate` holds only the days
//! whose number fits in an `i32`; a move that would leave them keeps the date
//! it started from.

use crate::civil::{
    day_of_day, days_from_civil_spec, days_in_month_spec, lemma_civil_of_day,
    lemma_civil_round_trip, lemma_days_before_month, lemma_year_length, lemma_year_range,
    month_of_day, year_of_day,
};
use crate::time::{lemma_day_number_range, weekday_number, Duration, NaiveDate};
use vstd::prelude::*;

verus! {

/// Whether `n` is the day number of a date that a `NaiveDate` can hold.
pub open spec fn fits(n: int) -> bool {
    i32::MIN <= n <= i32::MAX
}

/// The day `target` where a `NaiveDate` can hold it, else the day `from`.
pub open spec fn or_keep(target: int, from: int) -> int {
    if fits(target) {
        target
    } else {
        from
    }
}

/// The place of the month of day `n` on the line of all months.
pub open spec fn month_index(n: int) -> int {
    12 * year_of_day(n) + month_of_day(n) - 1
}

/// The first day of the month at place `index` on the line of all months.
pub open spec fn month_index_start(index: int) -> int {
    days_from_civil_spec(index / 12, index % 12 + 1, 1)
}

/// The first day of the month in which day `n` falls.
pub open spec fn month_start(n: int) -> int {
    n - day_of_day(n) + 1
}

/// The first day of the month that lies `offset` months after the month of
/// day `n`.
pub open spec fn add_months_spec(n: int, offset: int) -> int {
    month_index_start(month_index(n) + offset)
}

/// The last day of the month in which day `n` falls.
pub open spec fn month_end(n: int) -> int {
    month_start(n) + days_in_month_spec(year_of_day(n), month_of_day(n)) - 1
}

/// The Monday on or before day `n`.
pub open spec fn week_start(n: int) -> int {
    n - weekday_number(n)
}

/// What `first_day_of_month` gives for day `n`.
pub open spec fn first_day_view(n: int) -> int {
    or_keep(month_start(n), n)
}

/// What `add_months` gives for day `n`.
pub open spec fn add_months_view(n: int, offset: int) -> int {
    or_keep(add_months_spec(n, offset), n)
}

/// What `last_day_of_month` gives for day `n`.
pub open spec fn last_day_view(n: int) -> int {
    add_months_view(first_day_view(n), 1) - 1
}

/// The first day of a month is the day number of the 1st of that month, and
/// it falls in that month.
pub proof fn lemma_month_start(n: int)
    ensures
        month_start(n) == days_from_civil_spec(year_of_day(n), month_of_day(n), 1),
        year_of_day(month_start(n)) == year_of_day(n),
        month_of_day(month_start(n)) == month_of_day(n),
        day_of_day(month_start(n)) == 1,
        month_start(n) <= n < month_start(n) + days_in_month_spec(
            year_of_day(n),
            month_of_day(n),
        ),
{
    lemma_civil_of_day(n);
    lemma_civil_round_trip(year_of_day(n), month_of_day(n), 1);
}

/// The month at a place on the line of months starts on a day that falls in
/// that month, on its 1st.
pub proof fn lemma_month_index_start(index: int)
    ensures
        month_index(month_index_start(index)) == index,
        year_of_day(month_index_start(index)) == index / 12,
        month_of_day(month_index_start(index)) == index % 12 + 1,
        day_of_day(month_index_start(index)) == 1,
        month_start(month_index_start(index)) == month_index_start(index),
{
    lemma_civil_round_trip(index / 12, index % 12 + 1, 1);
}

/// Month `month` of year `year`, counted from 0, stands at place
/// `12 * year + month` on the line of months.
proof fn lemma_month_index_parts(year: int, month: int)
    requires
        0 <= month < 12,
    ensures
        (12 * year + month) / 12 == year,
        (12 * year + month) % 12 == month,
{
}

/// Moving by no months gives the first day of the month.
pub proof fn lemma_add_no_months(n: int)
    ensures
        add_months_spec(n, 0) == month_start(n),
{
    lemma_civil_of_day(n);
    lemma_month_start(n);
    lemma_month_index_parts(year_of_day(n), month_of_day(n) - 1);
}

/// Moving by months lands in the month that lies that many months on, on its
/// first day.
pub proof fn lemma_add_months_lands(n: int, offset: int)
    ensures
        month_index(add_months_spec(n, offset)) == month_index(n) + offset,
        day_of_day(add_months_spec(n, offset)) == 1,
{
    lemma_month_index_start(month_index(n) + offset);
}

/// Moving by `offset` months and then back by as many gives the first day of
/// the month that the move started in.
pub proof fn lemma_add_months_there_and_back(n: int, offset: int)
    ensures
        add_months_spec(add_months_spec(n, offset), -offset) == month_start(n),
{
    lemma_add_months_lands(n, offset);
    lemma_add_no_months(n);
}

/// Where every day on the way is one that a `NaiveDate` can hold, `add_months`
/// by `offset` and then by `-offset` gives what `first_day_of_month` gives.
pub proof fn lemma_add_months_round_trip(n: int, offset: int)
    requires
        fits(add_months_spec(n, offset)),
        fits(month_start(n)),
    ensures
        add_months_view(add_months_view(n, offset), -offset) == first_day_view(n),
{
    lemma_add_months_there_and_back(n, offset);
}

/// The month after a month starts when that month has ended.
pub proof fn lemma_next_month_start(n: int)
    ensures
        add_months_spec(n, 1) == month_end(n) + 1,
{
    lemma_civil_of_day(n);
    lemma_month_start(n);
    let year = year_of_day(n);
    let month = month_of_day(n);
    if month == 12 {
        lemma_month_index_parts(year + 1, 0);
    } else {
        lemma_month_index_parts(year, month);
    }
    lemma_days_before_month(year, month);
    lemma_days_before_month(year, 13);
    lemma_year_length(year);
}

/// One month on is the next month of the same year, and January of the next
/// year after December; one month back is the month before, and December of
/// the year before after January.
pub proof fn lemma_neighbour_months(n: int)
    ensures
        add_months_spec(n, 1) == if month_of_day(n) == 12 {
            days_from_civil_spec(year_of_day(n) + 1, 1, 1)
        } else {
            days_from_civil_spec(year_of_day(n), month_of_day(n) + 1, 1)
        },
        add_months_spec(n, -1) == if month_of_day(n) == 1 {
            days_from_civil_spec(year_of_day(n) - 1, 12, 1)
        } else {
            days_from_civil_spec(year_of_day(n), month_of_day(n) - 1, 1)
        },
{
    lemma_civil_of_day(n);
    let year = year_of_day(n);
    let month = month_of_day(n);
    if month == 12 {
        lemma_month_index_parts(year + 1, 0);
    } else {
        lemma_month_index_parts(year, month);
    }
    if month == 1 {
        lemma_month_index_parts(year - 1, 11);
    } else {
        lemma_month_index_parts(year, month - 2);
    }
}

/// A week starts on a Monday, at most six days back.
pub proof fn lemma_week_start(n: int)
    ensures
        weekday_number(week_start(n)) == 0,
        n - 6 <= week_start(n) <= n,
{
}

/// The first day of the month of `date`; `date` itself where that day is not
/// one that a `NaiveDate` can hold.
pub fn first_day_of_month(date: NaiveDate) -> (first: NaiveDate)
    ensures
        first@ == first_day_view(date@),
{
    proof {
        lemma_civil_of_day(date@);
    }
    match date.with_day(1) {
        Some(first) => first,
        None => date,
    }
}

/// The first day of the month that lies `offset` months after the month of
/// `date`; `date` itself where that day is not one that a `NaiveDate` can
/// hold.
pub fn add_months(date: NaiveDate, offset: i32) -> (moved: NaiveDate)
    ensures
        moved@ == add_months_view(date@, offset as int),
{
    proof {
        lemma_day_number_range(date);
        lemma_year_range(date@);
    }
    let index: i64 = 12 * (date.year() as i64) + (date.month() as i64 - 1) + offset as i64;
    let year: i64 = index.checked_div_euclid(12).unwrap();
    let month: i64 = index.checked_rem_euclid(12).unwrap() + 1;
    match NaiveDate::from_ymd_opt(year as i32, month as u32, 1) {
        Some(moved) => moved,
        None => date,
    }
}

/// The first day of the month after the month of `date`; `date` itself where
/// that day is not one that a `NaiveDate` can hold.
pub fn next_month(date: NaiveDate) -> (moved: NaiveDate)
    ensures
        moved@ == add_months_view(date@, 1),
{
    proof {
        lemma_day_number_range(date);
        lemma_year_range(date@);
        lemma_neighbour_months(date@);
    }
    let year: i32 = if date.month() == 12 {
        date.year() + 1
    } else {
        date.year()
    };
    let month: u32 = if date.month() == 12 {
        1
    } else {
        date.month() + 1
    };
    match NaiveDate::from_ymd_opt(year, month, 1) {
        Some(moved) => moved,
        None => date,
    }
}

/// The first day of the month before the month of `date`; `date` itself
/// where that day is not one that a `NaiveDate` can hold.
pub fn previous_month(date: NaiveDate) -> (moved: NaiveDate)
    ensures
        moved@ == add_months_view(date@, -1),
{
    proof {
        lemma_day_number_range(date);
        lemma_year_range(date@);
        lemma_neighbour_months(date@);
    }
    let year: i32 = if date.month() == 1 {
        date.year() - 1
    } else {
        date.year()
    };
    let month: u32 = if date.month() == 1 {
        12
    } else {
        date.month() - 1
    };
    match NaiveDate::from_ymd_opt(year, month, 1) {
        Some(moved) => moved,
        None => date,
    }
}

/// The last day of the month of `date`. At the two ends of the days that a
/// `NaiveDate` can hold, where the month's first day or the first day of the
/// next month is out of reach, the day before what `add_months` gives.
pub fn last_day_of_month(date: NaiveDate) -> (last: NaiveDate)
    ensures
        last@ == last_day_view(date@),
        fits(month_start(date@)) && fits(month_end(date@) + 1) ==> last@ == month_end(date@),
{
    let first = first_day_of_month(date);
    let next = add_months(first, 1);
    proof {
        lemma_day_number_range(date);
        lemma_day_number_range(first);
        lemma_month_start(date@);
        lemma_next_month_start(first@);
        lemma_civil_of_day(first@);
    }
    next - Duration::days(1)
}

/// The 42 days of a month view, week by week: the days from the Monday on or
/// before `month_start`, which is the first day of the shown month.
pub fn days_for_month(month_start: NaiveDate) -> (days: Vec<NaiveDate>)
    requires
        fits(week_start(month_start@)),
        fits(week_start(month_start@) + 41),
    ensures
        days@.len() == 42,
        forall|i: int| 0 <= i < 42 ==> (#[trigger] days@[i])@ == week_start(month_start@) + i,
        weekday_number(days@[0]@) == 0,
        days@[41]@ == days@[0]@ + 41,
{
    let start_offset: i64 = month_start.weekday().num_days_from_monday() as i64;
    let grid_start = month_start - Duration::days(start_offset);
    let mut days: Vec<NaiveDate> = Vec::with_capacity(42);
    let mut i: i64 = 0;
    while i < 42
        invariant
            0 <= i <= 42,
            days@.len() == i,
            grid_start@ == week_start(month_start@),
            fits(grid_start@),
            fits(grid_start@ + 41),
            forall|j: int| 0 <= j < i ==> (#[trigger] days@[j])@ == grid_start@ + j,
        decreases 42 - i,
    {
        days.push(grid_start + Duration::days(i));
        i += 1;
    }
    days
}

} // verus!
