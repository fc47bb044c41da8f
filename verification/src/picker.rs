//! The selection state of a range picker, as a reducer over its events.
//!
//! A picker holds the confirmed range, a draft that clicks work on, and the
//! day under the pointer. The first click picks a day, a second click on
//! another day completes the range in either order, and a click on a
//! completed range starts over. The day under the pointer only changes what
//! is shown. Nothing reaches the confirmed range but `confirm`.

use crate::civil::month_of_day;
use crate::month::{
    add_months, add_months_view, days_for_month, first_day_of_month, first_day_view, fits,
    last_day_view, week_start,
};
use crate::range::{
    quick_range_month, quick_range_week, range_preview, range_preview_spec, DateRange,
};
use crate::time::{lemma_day_number_injective, weekday_number, NaiveDate};
use vstd::math::{max, min};
use vstd::prelude::*;

verus! {

/// The three cells of a picker's selection.
#[derive(Clone, Copy, Debug, PartialEq, Eq, Structural)]
pub struct RangeSelectionState {
    /// The last confirmed selection.
    pub committed: Option<DateRange>,
    /// The selection in progress.
    pub draft: Option<DateRange>,
    /// The day under the pointer.
    pub hover: Option<NaiveDate>,
}

/// A range that a picker offers at one click.
#[derive(Clone, Copy, Debug, PartialEq, Eq, Structural)]
pub enum QuickRange {
    /// The week of today, Monday to Sunday.
    Week,
    /// The month of today.
    Month,
}

/// What can happen to a picker.
#[derive(Clone, Copy, Debug, PartialEq, Eq, Structural)]
pub enum PickerEvent {
    /// The picker opens.
    Open,
    /// A day is clicked.
    Click(NaiveDate),
    /// The pointer enters a day.
    Hover(NaiveDate),
    /// The pointer leaves a day.
    HoverLeave,
    /// The draft is cleared.
    Clear,
    /// The draft is confirmed.
    Confirm,
    /// The picker closes without a confirmation.
    Cancel,
    /// The shown month moves by a number of months.
    NavigateMonth(i32),
    /// A quick range is picked; the date is today.
    SetQuickRange(QuickRange, NaiveDate),
    /// The confirmed value is set from outside.
    SetCommitted(Option<DateRange>),
}

/// What the owner of a picker has to do after an event.
#[derive(Clone, Copy, Debug, PartialEq, Eq, Structural)]
pub enum PickerAction {
    /// Nothing.
    Nothing,
    /// Announce the new confirmed value, once, and close the picker.
    Commit(Option<DateRange>),
}

/// How the draft stands to the confirmed value, for the line that a picker
/// shows below its months.
#[derive(Clone, Copy, Debug, PartialEq, Eq, Structural)]
pub enum PendingChange {
    /// Nothing is picked and nothing is confirmed.
    Empty,
    /// The draft is the confirmed range.
    Current(DateRange),
    /// The draft is a range that is not confirmed; the second range is the
    /// confirmed one, if there is one.
    Pending(DateRange, Option<DateRange>),
    /// The draft is empty and would clear the confirmed range.
    PendingClear(DateRange),
}

/// A picker: its selection and the month that it shows, held as the first day
/// of that month.
#[derive(Clone, Copy, Debug, PartialEq, Eq, Structural)]
pub struct PickerState {
    pub selection: RangeSelectionState,
    pub month: NaiveDate,
}

/// One day of a month view, with what a picker needs to draw it.
#[derive(Clone, Copy, Debug, PartialEq, Eq, Structural)]
pub struct DayCell {
    pub date: NaiveDate,
    /// Whether the day belongs to the shown month.
    pub is_current_month: bool,
    /// Whether the day is the first day of the shown range.
    pub is_range_start: bool,
    /// Whether the day is the last day of the shown range.
    pub is_range_end: bool,
    /// Whether the day lies in the shown range.
    pub is_in_range: bool,
    /// Whether a click on the day counts.
    pub is_selectable: bool,
}

/// The single-day range of `day`.
pub open spec fn single(day: NaiveDate) -> DateRange {
    DateRange { start: day, end: day }
}

/// The draft after a click on `day`.
pub open spec fn draft_after_click(draft: Option<DateRange>, day: NaiveDate) -> DateRange {
    match draft {
        Some(range) => if range.is_single() && day != range.start {
            DateRange::spec_new(range.start, day)
        } else {
            single(day)
        },
        None => single(day),
    }
}

/// The day under the pointer after it has entered `day`: the pointer counts
/// only while one day is picked.
pub open spec fn hover_after_enter(
    draft: Option<DateRange>,
    hover: Option<NaiveDate>,
    day: NaiveDate,
) -> Option<NaiveDate> {
    match draft {
        Some(range) => if range.is_single() {
            Some(day)
        } else {
            hover
        },
        None => hover,
    }
}

/// How the draft stands to the confirmed value.
pub open spec fn pending_change_spec(
    draft: Option<DateRange>,
    committed: Option<DateRange>,
) -> PendingChange {
    match (draft, committed) {
        (Some(pending), Some(confirmed)) => if pending == confirmed {
            PendingChange::Current(pending)
        } else {
            PendingChange::Pending(pending, Some(confirmed))
        },
        (Some(pending), None) => PendingChange::Pending(pending, None),
        (None, Some(confirmed)) => PendingChange::PendingClear(confirmed),
        (None, None) => PendingChange::Empty,
    }
}

/// The cell of `day` in the view of the month of `month`, with `preview` as
/// the shown range. A day outside the month can be clicked only where
/// `show_outside_days` holds.
pub open spec fn day_cell_spec(
    day: NaiveDate,
    month: int,
    preview: Option<DateRange>,
    show_outside_days: bool,
) -> DayCell {
    let in_month = month_of_day(day@) == month;
    DayCell {
        date: day,
        is_current_month: in_month,
        is_range_start: preview is Some && preview.unwrap().start == day,
        is_range_end: preview is Some && preview.unwrap().end == day,
        is_in_range: preview is Some && preview.unwrap().spec_contains(day),
        is_selectable: show_outside_days || in_month,
    }
}

impl RangeSelectionState {
    /// Whether the confirmed range and the draft are in order.
    pub open spec fn wf(self) -> bool {
        &&& self.committed is Some ==> self.committed.unwrap().wf()
        &&& self.draft is Some ==> self.draft.unwrap().wf()
    }

    /// The state after a click on `day`.
    pub open spec fn after_click(self, day: NaiveDate) -> Self {
        RangeSelectionState {
            committed: self.committed,
            draft: Some(draft_after_click(self.draft, day)),
            hover: None,
        }
    }

    /// The state after the pointer has entered `day`.
    pub open spec fn after_hover(self, day: NaiveDate) -> Self {
        RangeSelectionState {
            committed: self.committed,
            draft: self.draft,
            hover: hover_after_enter(self.draft, self.hover, day),
        }
    }

    /// The state after the pointer has left a day.
    pub open spec fn after_hover_leave(self) -> Self {
        RangeSelectionState { committed: self.committed, draft: self.draft, hover: None }
    }

    /// The state after the draft has been cleared.
    pub open spec fn after_clear(self) -> Self {
        RangeSelectionState { committed: self.committed, draft: None, hover: None }
    }

    /// The state after the draft has been set to `range` as a whole.
    pub open spec fn after_select(self, range: DateRange) -> Self {
        RangeSelectionState { committed: self.committed, draft: Some(range), hover: None }
    }

    /// The state after the draft has been dropped: the draft is the confirmed
    /// value again. The picker is in this state when it opens.
    pub open spec fn after_reset(self) -> Self {
        RangeSelectionState { committed: self.committed, draft: self.committed, hover: None }
    }

    /// The state after the confirmed value has been set to `value` from
    /// outside: the draft follows it.
    pub open spec fn after_set_committed(self, value: Option<DateRange>) -> Self {
        RangeSelectionState { committed: value, draft: value, hover: self.hover }
    }

    /// Whether a confirmation would change the confirmed value.
    pub open spec fn can_confirm(self) -> bool {
        self.draft != self.committed
    }

    /// The state after a confirmation: the draft becomes the confirmed value,
    /// and where the two are the same nothing changes.
    pub open spec fn after_confirm(self) -> Self {
        if self.can_confirm() {
            RangeSelectionState { committed: self.draft, draft: self.draft, hover: None }
        } else {
            self
        }
    }

    /// The range to show: the draft, stretched to the day under the pointer
    /// while one day is picked.
    pub open spec fn preview_spec(self) -> Option<DateRange> {
        range_preview_spec(self.draft, self.hover)
    }

    /// The selection of a picker whose confirmed value is `committed`. The
    /// draft starts from the confirmed value.
    pub fn new(committed: Option<DateRange>) -> (state: Self)
        ensures
            state == (RangeSelectionState { committed, draft: committed, hover: None }),
    {
        Self { committed, draft: committed, hover: None }
    }

    /// The picker opens: the draft starts from the confirmed value.
    pub fn open(&mut self)
        ensures
            *final(self) == old(self).after_reset(),
    {
        self.draft = self.committed;
        self.hover = None;
    }

    /// A click on `day`. With nothing picked, or with a completed range, the
    /// day becomes the one picked day. With one day picked, a click on
    /// another day completes the range between the two, in order; a click on
    /// the picked day leaves it picked.
    pub fn click(&mut self, day: NaiveDate)
        ensures
            *final(self) == old(self).after_click(day),
            final(self).draft is Some,
            final(self).draft.unwrap().wf(),
            final(self).draft.unwrap().spec_contains(day),
            final(self).committed == old(self).committed,
    {
        let next = match self.draft {
            Some(current) => {
                if current.start != current.end {
                    DateRange::new(day, day)
                } else if day == current.start {
                    DateRange::new(day, day)
                } else {
                    DateRange::new(current.start, day)
                }
            },
            None => DateRange::new(day, day),
        };
        self.draft = Some(next);
        self.hover = None;
    }

    /// The pointer enters `day`. While one day is picked, `day` becomes the
    /// day under the pointer; else nothing changes. The draft never changes.
    pub fn hover(&mut self, day: NaiveDate)
        ensures
            *final(self) == old(self).after_hover(day),
            final(self).draft == old(self).draft,
            final(self).committed == old(self).committed,
    {
        match self.draft {
            Some(range) => {
                if range.start == range.end {
                    self.hover = Some(day);
                }
            },
            None => {},
        }
    }

    /// The pointer leaves a day.
    pub fn hover_leave(&mut self)
        ensures
            *final(self) == old(self).after_hover_leave(),
    {
        self.hover = None;
    }

    /// The draft is cleared. The confirmed value stays as it is.
    pub fn clear(&mut self)
        ensures
            *final(self) == old(self).after_clear(),
            final(self).committed == old(self).committed,
    {
        self.draft = None;
        self.hover = None;
    }

    /// The draft is set to `range` as a whole, as a quick range does.
    pub fn select(&mut self, range: DateRange)
        ensures
            *final(self) == old(self).after_select(range),
    {
        self.draft = Some(range);
        self.hover = None;
    }

    /// The picker closes without a confirmation: the draft is dropped.
    pub fn cancel(&mut self)
        ensures
            *final(self) == old(self).after_reset(),
            final(self).committed == old(self).committed,
    {
        self.draft = self.committed;
        self.hover = None;
    }

    /// The confirmed value is set from outside, and the draft follows it.
    pub fn set_committed(&mut self, value: Option<DateRange>)
        ensures
            *final(self) == old(self).after_set_committed(value),
    {
        self.committed = value;
        self.draft = value;
    }

    /// Whether the draft differs from the confirmed value, so that a
    /// confirmation would change it.
    pub fn confirm_enabled(&self) -> (enabled: bool)
        ensures
            enabled == self.can_confirm(),
    {
        self.draft != self.committed
    }

    /// The draft is confirmed. Where it differs from the confirmed value it
    /// becomes the confirmed value, and the result is `true`: the change is to
    /// be announced, once, and the picker closed. Where it does not, nothing
    /// changes and the result is `false`.
    pub fn confirm(&mut self) -> (changed: bool)
        ensures
            changed == old(self).can_confirm(),
            *final(self) == old(self).after_confirm(),
            final(self).committed == old(self).draft,
            !final(self).can_confirm(),
    {
        if self.draft != self.committed {
            self.committed = self.draft;
            self.hover = None;
            true
        } else {
            false
        }
    }

    /// The range to show.
    pub fn preview(&self) -> (shown: Option<DateRange>)
        ensures
            shown == self.preview_spec(),
    {
        range_preview(self.draft, self.hover)
    }

    /// How the draft stands to the confirmed value.
    pub fn pending_change(&self) -> (change: PendingChange)
        ensures
            change == pending_change_spec(self.draft, self.committed),
    {
        match self.draft {
            Some(pending) => match self.committed {
                Some(confirmed) => if pending == confirmed {
                    PendingChange::Current(pending)
                } else {
                    PendingChange::Pending(pending, Some(confirmed))
                },
                None => PendingChange::Pending(pending, None),
            },
            None => match self.committed {
                Some(confirmed) => PendingChange::PendingClear(confirmed),
                None => PendingChange::Empty,
            },
        }
    }
}

/// Clicks and the pointer keep the draft and the confirmed range in order.
pub proof fn lemma_selection_stays_ordered(state: RangeSelectionState, day: NaiveDate)
    requires
        state.wf(),
    ensures
        state.after_click(day).wf(),
        state.after_hover(day).wf(),
        state.after_hover_leave().wf(),
        state.after_clear().wf(),
        state.after_reset().wf(),
        state.after_confirm().wf(),
        state.preview_spec() is Some ==> state.preview_spec().unwrap().wf(),
{
}

/// The first click picks a day, the second completes the range in either
/// order, and the third starts over.
pub proof fn lemma_three_clicks(
    state: RangeSelectionState,
    first: NaiveDate,
    second: NaiveDate,
    third: NaiveDate,
)
    requires
        state.draft is None,
        first != second,
    ensures
        state.after_click(first).draft == Some(single(first)),
        state.after_click(first).after_click(second).draft == Some(
            DateRange::spec_new(first, second),
        ),
        state.after_click(first).after_click(second).draft == state.after_click(
            second,
        ).after_click(first).draft,
        state.after_click(first).after_click(second).after_click(third).draft == Some(
            single(third),
        ),
{
    lemma_day_number_injective(first, second);
}

/// The pointer changes what is shown and never the draft: while one day is
/// picked, the shown range runs between that day and the day under the
/// pointer.
pub proof fn lemma_hover_previews(state: RangeSelectionState, anchor: NaiveDate, day: NaiveDate)
    requires
        state.draft == Some(single(anchor)),
    ensures
        state.after_hover(day).draft == state.draft,
        state.after_hover(day).preview_spec() == Some(DateRange::spec_new(anchor, day)),
        state.after_hover(day).after_hover_leave().preview_spec() == state.draft,
{
}

/// A confirmation changes the confirmed value exactly when the draft differs
/// from it, and a second confirmation in a row changes nothing.
pub proof fn lemma_confirm_once(state: RangeSelectionState)
    ensures
        state.after_confirm().committed == state.draft,
        !state.after_confirm().can_confirm(),
        state.after_confirm().after_confirm() == state.after_confirm(),
        !state.can_confirm() ==> state.after_confirm() == state,
        state.after_clear().committed == state.committed,
        state.after_confirm().after_reset().draft == state.after_confirm().committed,
{
}

impl PickerState {
    /// Whether `event` is one that the picker can take: a quick week needs
    /// the Monday and the Sunday of today's week to be days that a `NaiveDate`
    /// can hold.
    pub open spec fn accepts(event: PickerEvent) -> bool {
        match event {
            PickerEvent::SetQuickRange(QuickRange::Week, today) => fits(week_start(today@))
                && fits(week_start(today@) + 6),
            _ => true,
        }
    }

    /// The selection after `event`, for every event but a quick range.
    pub open spec fn selection_after(self, event: PickerEvent) -> RangeSelectionState {
        match event {
            PickerEvent::Open => self.selection.after_reset(),
            PickerEvent::Click(day) => self.selection.after_click(day),
            PickerEvent::Hover(day) => self.selection.after_hover(day),
            PickerEvent::HoverLeave => self.selection.after_hover_leave(),
            PickerEvent::Clear => self.selection.after_clear(),
            PickerEvent::Confirm => self.selection.after_confirm(),
            PickerEvent::Cancel => self.selection.after_reset(),
            PickerEvent::NavigateMonth(_) => self.selection,
            PickerEvent::SetQuickRange(_, _) => self.selection,
            PickerEvent::SetCommitted(value) => self.selection.after_set_committed(value),
        }
    }

    /// What the owner has to do after `event`.
    pub open spec fn action_after(self, event: PickerEvent) -> PickerAction {
        match event {
            PickerEvent::Confirm => if self.selection.can_confirm() {
                PickerAction::Commit(self.selection.draft)
            } else {
                PickerAction::Nothing
            },
            _ => PickerAction::Nothing,
        }
    }

    /// A picker whose confirmed value is `committed`. It shows the month of
    /// the confirmed range's first day; without a confirmed range the month of
    /// `initial_month`; without that the month of `today`; and without a
    /// known today the month of 1970-01-01.
    pub fn new(
        committed: Option<DateRange>,
        initial_month: Option<NaiveDate>,
        today: Option<NaiveDate>,
    ) -> (state: Self)
        ensures
            state.selection == (RangeSelectionState { committed, draft: committed, hover: None }),
            state.month@ == first_day_view(
                match committed {
                    Some(range) => range.start@,
                    None => match initial_month {
                        Some(month) => month@,
                        None => match today {
                            Some(day) => day@,
                            None => 0,
                        },
                    },
                },
            ),
    {
        let shown = match committed {
            Some(range) => range.start,
            None => match initial_month {
                Some(month) => month,
                None => match today {
                    Some(day) => day,
                    None => NaiveDate::from_days_since_epoch(0).unwrap(),
                },
            },
        };
        Self { selection: RangeSelectionState::new(committed), month: first_day_of_month(shown) }
    }

    /// The picker takes `event` and says what its owner has to do.
    ///
    /// A quick range becomes the draft, and the picker shows the month in
    /// which it starts. Moving the month leaves the selection alone. Every
    /// other event leaves the month alone and changes the selection as the
    /// method of its name does. Only a confirmation that changes the confirmed
    /// value asks for anything: the new value is to be announced, once, and
    /// the picker closed.
    pub fn apply(&mut self, event: PickerEvent) -> (action: PickerAction)
        requires
            Self::accepts(event),
        ensures
            action == old(self).action_after(event),
            match event {
                PickerEvent::NavigateMonth(offset) => {
                    &&& final(self).selection == old(self).selection
                    &&& final(self).month@ == add_months_view(old(self).month@, offset as int)
                },
                PickerEvent::SetQuickRange(kind, today) => {
                    &&& final(self).selection.committed == old(self).selection.committed
                    &&& final(self).selection.hover is None
                    &&& final(self).selection.draft is Some
                    &&& final(self).selection.draft.unwrap().wf()
                    &&& kind == QuickRange::Week ==> {
                        &&& final(self).selection.draft.unwrap().start@ == week_start(today@)
                        &&& final(self).selection.draft.unwrap().end@ == week_start(today@) + 6
                    }
                    &&& kind == QuickRange::Month ==> {
                        &&& final(self).selection.draft.unwrap().start@ == min(
                            first_day_view(today@),
                            last_day_view(today@),
                        )
                        &&& final(self).selection.draft.unwrap().end@ == max(
                            first_day_view(today@),
                            last_day_view(today@),
                        )
                    }
                    &&& final(self).month@ == first_day_view(
                        final(self).selection.draft.unwrap().start@,
                    )
                },
                _ => {
                    &&& final(self).selection == old(self).selection_after(event)
                    &&& final(self).month == old(self).month
                },
            },
    {
        match event {
            PickerEvent::Open => {
                self.selection.open();
                PickerAction::Nothing
            },
            PickerEvent::Click(day) => {
                self.selection.click(day);
                PickerAction::Nothing
            },
            PickerEvent::Hover(day) => {
                self.selection.hover(day);
                PickerAction::Nothing
            },
            PickerEvent::HoverLeave => {
                self.selection.hover_leave();
                PickerAction::Nothing
            },
            PickerEvent::Clear => {
                self.selection.clear();
                PickerAction::Nothing
            },
            PickerEvent::Confirm => {
                if self.selection.confirm() {
                    PickerAction::Commit(self.selection.committed)
                } else {
                    PickerAction::Nothing
                }
            },
            PickerEvent::Cancel => {
                self.selection.cancel();
                PickerAction::Nothing
            },
            PickerEvent::NavigateMonth(offset) => {
                self.month = add_months(self.month, offset);
                PickerAction::Nothing
            },
            PickerEvent::SetQuickRange(kind, today) => {
                let range = match kind {
                    QuickRange::Week => quick_range_week(today),
                    QuickRange::Month => quick_range_month(today),
                };
                self.selection.select(range);
                self.month = first_day_of_month(range.start);
                PickerAction::Nothing
            },
            PickerEvent::SetCommitted(value) => {
                self.selection.set_committed(value);
                PickerAction::Nothing
            },
        }
    }

    /// The 42 cells of the view of the month that starts on `month_start`,
    /// week by week from the Monday on or before it, with the picker's shown
    /// range. Every day can be clicked.
    pub fn month_cells(&self, month_start: NaiveDate) -> (cells: Vec<DayCell>)
        requires
            fits(week_start(month_start@)),
            fits(week_start(month_start@) + 41),
        ensures
            cells@.len() == 42,
            forall|i: int|
                0 <= i < 42 ==> {
                    &&& (#[trigger] cells@[i]).date@ == week_start(month_start@) + i
                    &&& cells@[i] == day_cell_spec(
                        cells@[i].date,
                        month_of_day(month_start@),
                        self.selection.preview_spec(),
                        true,
                    )
                },
            weekday_number(cells@[0].date@) == 0,
    {
        let days = days_for_month(month_start);
        let preview = self.selection.preview();
        let month = month_start.month();
        let mut cells: Vec<DayCell> = Vec::with_capacity(42);
        let mut i: usize = 0;
        while i < 42
            invariant
                0 <= i <= 42,
                days@.len() == 42,
                cells@.len() == i,
                month == month_of_day(month_start@),
                preview == self.selection.preview_spec(),
                forall|j: int|
                    0 <= j < 42 ==> (#[trigger] days@[j])@ == week_start(month_start@) + j,
                forall|j: int|
                    0 <= j < i ==> {
                        &&& (#[trigger] cells@[j]).date == days@[j]
                        &&& cells@[j] == day_cell_spec(
                            cells@[j].date,
                            month as int,
                            preview,
                            true,
                        )
                    },
            decreases 42 - i,
        {
            cells.push(day_cell(days[i], month, preview, true));
            i += 1;
        }
        assert(cells@[0].date == days@[0]);
        cells
    }

    /// The cell of `day` in the view of the month that starts on
    /// `month_start`, with the picker's shown range. Every day can be clicked.
    pub fn day_cell(&self, month_start: NaiveDate, day: NaiveDate) -> (cell: DayCell)
        ensures
            cell == day_cell_spec(
                day,
                month_of_day(month_start@),
                self.selection.preview_spec(),
                true,
            ),
    {
        day_cell(day, month_start.month(), self.selection.preview(), true)
    }
}

/// The cell of `day` in the view of month `month`, with `preview` as the shown
/// range.
pub fn day_cell(day: NaiveDate, month: u32, preview: Option<DateRange>, show_outside_days: bool) -> (cell:
    DayCell)
    ensures
        cell == day_cell_spec(day, month as int, preview, show_outside_days),
{
    let in_month = day.month() == month;
    match preview {
        Some(range) => DayCell {
            date: day,
            is_current_month: in_month,
            is_range_start: range.start == day,
            is_range_end: range.end == day,
            is_in_range: range.contains(&day),
            is_selectable: show_outside_days || in_month,
        },
        None => DayCell {
            date: day,
            is_current_month: in_month,
            is_range_start: false,
            is_range_end: false,
            is_in_range: false,
            is_selectable: show_outside_days || in_month,
        },
    }
}

} // verus!
