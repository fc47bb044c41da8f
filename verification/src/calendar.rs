//! A month view with one selected day.

use crate::civil::month_of_day;
use crate::month::{
    add_months_view, days_for_month, first_day_of_month, first_day_view, fits, next_month,
    previous_month, week_start,
};
use crate::time::{date_text, weekday_number, NaiveDate};
use vstd::prelude::*;

verus! {

/// One day of a month view with one selected day.
#[derive(Clone, Copy, Debug, PartialEq, Eq, Structural)]
pub struct CalendarDay {
    pub date: NaiveDate,
    /// Whether the day belongs to the shown month.
    pub is_current_month: bool,
    /// Whether the day is the selected day.
    pub is_selected: bool,
    /// Whether a click on the day is refused.
    pub is_disabled: bool,
}

/// A month view with one selected day. `month` is the first day of the shown
/// month. Days of the neighbouring months can be clicked only where
/// `show_outside_days` holds.
#[derive(Clone, Copy, Debug, PartialEq, Eq, Structural)]
pub struct CalendarState {
    pub month: NaiveDate,
    pub selected: Option<NaiveDate>,
    pub show_outside_days: bool,
}

/// The title of the month of day `n`: the month's name and the year.
pub open spec fn month_label_spec(n: int) -> Seq<char> {
    date_text(n, "%B %Y"@)
}

/// The title of the month of `date`: the month's name and the year.
pub fn month_label(date: NaiveDate) -> (label: String)
    ensures
        label@ == month_label_spec(date@),
{
    date.format("%B %Y").to_string()
}

impl CalendarState {
    /// Whether a click on `day` is refused: the day lies outside the shown
    /// month, and such days are not to be clicked.
    pub open spec fn refuses(self, day: NaiveDate) -> bool {
        !self.show_outside_days && month_of_day(day@) != month_of_day(self.month@)
    }

    /// The cell of `day` in this view.
    pub open spec fn cell_spec(self, day: NaiveDate) -> CalendarDay {
        CalendarDay {
            date: day,
            is_current_month: month_of_day(day@) == month_of_day(self.month@),
            is_selected: self.selected == Some(day),
            is_disabled: self.refuses(day),
        }
    }

    /// The state after a click on `day`.
    pub open spec fn after_select(self, day: NaiveDate) -> Self {
        if self.refuses(day) {
            self
        } else {
            CalendarState {
                month: self.month,
                selected: Some(day),
                show_outside_days: self.show_outside_days,
            }
        }
    }

    /// A view of the month of `initial_month`, with `selected` as the
    /// selected day.
    pub fn new(initial_month: NaiveDate, selected: Option<NaiveDate>, show_outside_days: bool) -> (state:
        Self)
        ensures
            state.month@ == first_day_view(initial_month@),
            state.selected == selected,
            state.show_outside_days == show_outside_days,
    {
        Self { month: first_day_of_month(initial_month), selected, show_outside_days }
    }

    /// Shows the month before the shown one.
    pub fn show_previous_month(&mut self)
        ensures
            final(self).month@ == add_months_view(old(self).month@, -1),
            final(self).selected == old(self).selected,
            final(self).show_outside_days == old(self).show_outside_days,
    {
        self.month = previous_month(self.month);
    }

    /// Shows the month after the shown one.
    pub fn show_next_month(&mut self)
        ensures
            final(self).month@ == add_months_view(old(self).month@, 1),
            final(self).selected == old(self).selected,
            final(self).show_outside_days == old(self).show_outside_days,
    {
        self.month = next_month(self.month);
    }

    /// The cell of `day` in this view.
    pub fn cell(&self, day: NaiveDate) -> (cell: CalendarDay)
        ensures
            cell == self.cell_spec(day),
    {
        let is_current_month = day.month() == self.month.month();
        let is_selected = match self.selected {
            Some(selected) => selected == day,
            None => false,
        };
        CalendarDay {
            date: day,
            is_current_month,
            is_selected,
            is_disabled: !self.show_outside_days && !is_current_month,
        }
    }

    /// A click on `day`. Where the click is not refused the day becomes the
    /// selected day, and the result is `true`: the selection is to be
    /// announced. Where it is refused nothing changes.
    pub fn select(&mut self, day: NaiveDate) -> (accepted: bool)
        ensures
            accepted == !old(self).refuses(day),
            *final(self) == old(self).after_select(day),
    {
        if self.cell(day).is_disabled {
            false
        } else {
            self.selected = Some(day);
            true
        }
    }

    /// The title of the shown month.
    pub fn title(&self) -> (label: String)
        ensures
            label@ == month_label_spec(self.month@),
    {
        month_label(self.month)
    }

    /// The 42 cells of the view, week by week from the Monday on or before
    /// the first day of the shown month.
    pub fn cells(&self) -> (cells: Vec<CalendarDay>)
        requires
            fits(week_start(self.month@)),
            fits(week_start(self.month@) + 41),
        ensures
            cells@.len() == 42,
            forall|i: int|
                0 <= i < 42 ==> {
                    &&& (#[trigger] cells@[i]).date@ == week_start(self.month@) + i
                    &&& cells@[i] == self.cell_spec(cells@[i].date)
                },
            weekday_number(cells@[0].date@) == 0,
    {
        let days = days_for_month(self.month);
        let mut cells: Vec<CalendarDay> = Vec::with_capacity(42);
        let mut i: usize = 0;
        while i < 42
            invariant
                0 <= i <= 42,
                days@.len() == 42,
                cells@.len() == i,
                forall|j: int| 0 <= j < 42 ==> (#[trigger] days@[j])@ == week_start(self.month@) + j,
                forall|j: int|
                    0 <= j < i ==> {
                        &&& (#[trigger] cells@[j]).date == days@[j]
                        &&& cells@[j] == self.cell_spec(cells@[j].date)
                    },
            decreases 42 - i,
        {
            cells.push(self.cell(days[i]));
            i += 1;
        }
        assert(cells@[0].date == days@[0]);
        cells
    }
}

} // verus!
