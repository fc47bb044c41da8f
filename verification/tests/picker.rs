use calendar_engine::calendar::{month_label, CalendarDay, CalendarState};
use calendar_engine::picker::{
    day_cell, DayCell, PendingChange, PickerAction, PickerEvent, PickerState, QuickRange,
    RangeSelectionState,
};
use calendar_engine::range::DateRange;
use calendar_engine::time::NaiveDate;

fn ymd(year: i32, month: u32, day: u32) -> NaiveDate {
    NaiveDate::from_ymd_opt(year, month, day).unwrap()
}

fn range(a: NaiveDate, b: NaiveDate) -> Option<DateRange> {
    Some(DateRange { start: a, end: b })
}

#[test]
fn click_sequence() {
    let mut state = RangeSelectionState::new(None);
    assert_eq!(state.draft, None);

    state.click(ymd(2024, 6, 10));
    assert_eq!(state.draft, range(ymd(2024, 6, 10), ymd(2024, 6, 10)));

    state.hover(ymd(2024, 6, 15));
    assert_eq!(state.preview(), range(ymd(2024, 6, 10), ymd(2024, 6, 15)));
    assert_eq!(state.draft, range(ymd(2024, 6, 10), ymd(2024, 6, 10)));
    assert_eq!(state.hover, Some(ymd(2024, 6, 15)));

    state.click(ymd(2024, 6, 5));
    assert_eq!(state.draft, range(ymd(2024, 6, 5), ymd(2024, 6, 10)));
    assert_eq!(state.hover, None);

    state.click(ymd(2024, 6, 20));
    assert_eq!(state.draft, range(ymd(2024, 6, 20), ymd(2024, 6, 20)));
    assert_eq!(state.committed, None);
}

#[test]
fn confirm_and_cancel() {
    let mut state = RangeSelectionState::new(None);
    state.open();
    assert_eq!(state.draft, None);
    assert!(!state.confirm_enabled());
    assert!(!state.confirm());
    assert_eq!(state.committed, None);

    state.click(ymd(2024, 7, 1));
    state.click(ymd(2024, 7, 5));
    assert_eq!(state.draft, range(ymd(2024, 7, 1), ymd(2024, 7, 5)));
    assert_eq!(state.committed, None);

    assert!(state.confirm_enabled());
    assert!(state.confirm());
    assert_eq!(state.committed, range(ymd(2024, 7, 1), ymd(2024, 7, 5)));
    assert!(!state.confirm_enabled());
    assert!(!state.confirm());
    assert_eq!(state.committed, range(ymd(2024, 7, 1), ymd(2024, 7, 5)));

    state.open();
    assert_eq!(state.draft, state.committed);

    state.clear();
    assert_eq!(state.draft, None);
    assert_eq!(state.committed, range(ymd(2024, 7, 1), ymd(2024, 7, 5)));

    assert!(state.confirm());
    assert_eq!(state.committed, None);
}

#[test]
fn a_click_on_the_picked_day_keeps_it() {
    let mut state = RangeSelectionState::new(None);
    state.click(ymd(2024, 6, 10));
    state.hover(ymd(2024, 6, 12));
    state.click(ymd(2024, 6, 10));
    assert_eq!(state.draft, range(ymd(2024, 6, 10), ymd(2024, 6, 10)));
    assert_eq!(state.hover, None);
    state.click(ymd(2024, 6, 12));
    assert_eq!(state.draft, range(ymd(2024, 6, 10), ymd(2024, 6, 12)));
}

#[test]
fn the_pointer_counts_only_while_one_day_is_picked() {
    let mut state = RangeSelectionState::new(None);
    state.hover(ymd(2024, 6, 15));
    assert_eq!(state.hover, None);
    assert_eq!(state.preview(), None);

    state.click(ymd(2024, 6, 10));
    state.hover(ymd(2024, 6, 3));
    assert_eq!(state.preview(), range(ymd(2024, 6, 3), ymd(2024, 6, 10)));
    state.hover_leave();
    assert_eq!(state.hover, None);
    assert_eq!(state.preview(), range(ymd(2024, 6, 10), ymd(2024, 6, 10)));

    state.click(ymd(2024, 6, 12));
    state.hover(ymd(2024, 6, 20));
    assert_eq!(state.hover, None);
    assert_eq!(state.preview(), range(ymd(2024, 6, 10), ymd(2024, 6, 12)));
}

#[test]
fn cancel_drops_the_draft() {
    let confirmed = range(ymd(2024, 7, 1), ymd(2024, 7, 5));
    let mut state = RangeSelectionState::new(confirmed);
    assert_eq!(state.draft, confirmed);
    state.click(ymd(2024, 8, 1));
    state.hover(ymd(2024, 8, 3));
    state.cancel();
    assert_eq!(state.draft, confirmed);
    assert_eq!(state.committed, confirmed);
    assert_eq!(state.hover, None);
}

#[test]
fn the_draft_follows_a_value_set_from_outside() {
    let mut state = RangeSelectionState::new(None);
    state.click(ymd(2024, 8, 1));
    let value = range(ymd(2024, 7, 1), ymd(2024, 7, 5));
    state.set_committed(value);
    assert_eq!(state.committed, value);
    assert_eq!(state.draft, value);
    assert!(!state.confirm_enabled());
    state.select(DateRange::new(ymd(2024, 9, 2), ymd(2024, 9, 1)));
    assert_eq!(state.draft, range(ymd(2024, 9, 1), ymd(2024, 9, 2)));
    assert_eq!(state.committed, value);
}

#[test]
fn how_the_draft_stands_to_the_confirmed_value() {
    let a = DateRange::new(ymd(2024, 7, 1), ymd(2024, 7, 5));
    let b = DateRange::new(ymd(2024, 8, 1), ymd(2024, 8, 1));
    let mut state = RangeSelectionState::new(None);
    assert_eq!(state.pending_change(), PendingChange::Empty);
    state.click(ymd(2024, 8, 1));
    assert_eq!(state.pending_change(), PendingChange::Pending(b, None));
    state.set_committed(Some(a));
    assert_eq!(state.pending_change(), PendingChange::Current(a));
    state.click(ymd(2024, 8, 1));
    assert_eq!(state.pending_change(), PendingChange::Pending(b, Some(a)));
    state.clear();
    assert_eq!(state.pending_change(), PendingChange::PendingClear(a));
}

#[test]
fn a_picker_shows_the_month_of_its_value() {
    let value = range(ymd(2024, 7, 10), ymd(2024, 8, 5));
    let picker = PickerState::new(value, Some(ymd(2023, 1, 15)), Some(ymd(2024, 6, 12)));
    assert_eq!(picker.month, ymd(2024, 7, 1));
    assert_eq!(picker.selection.committed, value);
    assert_eq!(picker.selection.draft, value);
    assert_eq!(picker.selection.hover, None);
    let picker = PickerState::new(None, Some(ymd(2023, 1, 15)), Some(ymd(2024, 6, 12)));
    assert_eq!(picker.month, ymd(2023, 1, 1));
    let picker = PickerState::new(None, None, Some(ymd(2024, 6, 12)));
    assert_eq!(picker.month, ymd(2024, 6, 1));
    let picker = PickerState::new(None, None, None);
    assert_eq!(picker.month, ymd(1970, 1, 1));
}

#[test]
fn a_picker_takes_events() {
    let mut picker = PickerState::new(None, None, Some(ymd(2024, 6, 12)));
    assert_eq!(picker.apply(PickerEvent::Open), PickerAction::Nothing);
    assert_eq!(picker.apply(PickerEvent::Confirm), PickerAction::Nothing);
    assert_eq!(picker.apply(PickerEvent::Click(ymd(2024, 7, 1))), PickerAction::Nothing);
    assert_eq!(picker.apply(PickerEvent::Hover(ymd(2024, 7, 3))), PickerAction::Nothing);
    assert_eq!(picker.selection.preview(), range(ymd(2024, 7, 1), ymd(2024, 7, 3)));
    assert_eq!(picker.apply(PickerEvent::HoverLeave), PickerAction::Nothing);
    assert_eq!(picker.selection.hover, None);
    assert_eq!(picker.apply(PickerEvent::Click(ymd(2024, 7, 5))), PickerAction::Nothing);
    assert_eq!(picker.month, ymd(2024, 6, 1));
    assert_eq!(picker.selection.committed, None);

    let confirmed = range(ymd(2024, 7, 1), ymd(2024, 7, 5));
    assert_eq!(picker.apply(PickerEvent::Confirm), PickerAction::Commit(confirmed));
    assert_eq!(picker.selection.committed, confirmed);
    assert_eq!(picker.apply(PickerEvent::Confirm), PickerAction::Nothing);

    assert_eq!(picker.apply(PickerEvent::Open), PickerAction::Nothing);
    assert_eq!(picker.selection.draft, confirmed);
    assert_eq!(picker.apply(PickerEvent::Clear), PickerAction::Nothing);
    assert_eq!(picker.selection.draft, None);
    assert_eq!(picker.selection.committed, confirmed);
    assert_eq!(picker.apply(PickerEvent::Cancel), PickerAction::Nothing);
    assert_eq!(picker.selection.draft, confirmed);
    assert_eq!(picker.apply(PickerEvent::Clear), PickerAction::Nothing);
    assert_eq!(picker.apply(PickerEvent::Confirm), PickerAction::Commit(None));
    assert_eq!(picker.selection.committed, None);

    assert_eq!(picker.apply(PickerEvent::SetCommitted(confirmed)), PickerAction::Nothing);
    assert_eq!(picker.selection.committed, confirmed);
    assert_eq!(picker.selection.draft, confirmed);
}

#[test]
fn a_picker_moves_its_month() {
    let mut picker = PickerState::new(None, None, Some(ymd(2024, 6, 12)));
    picker.apply(PickerEvent::Click(ymd(2024, 6, 10)));
    let selection = picker.selection;
    assert_eq!(picker.apply(PickerEvent::NavigateMonth(1)), PickerAction::Nothing);
    assert_eq!(picker.month, ymd(2024, 7, 1));
    picker.apply(PickerEvent::NavigateMonth(-12));
    assert_eq!(picker.month, ymd(2023, 7, 1));
    picker.apply(PickerEvent::NavigateMonth(12));
    picker.apply(PickerEvent::NavigateMonth(-1));
    assert_eq!(picker.month, ymd(2024, 6, 1));
    assert_eq!(picker.selection, selection);
}

#[test]
fn a_quick_range_becomes_the_draft() {
    let confirmed = range(ymd(2023, 1, 1), ymd(2023, 1, 2));
    let mut picker = PickerState::new(confirmed, None, None);
    picker.apply(PickerEvent::Click(ymd(2023, 1, 5)));
    picker.apply(PickerEvent::Hover(ymd(2023, 1, 7)));
    let today = ymd(2024, 7, 3);
    assert_eq!(
        picker.apply(PickerEvent::SetQuickRange(QuickRange::Week, today)),
        PickerAction::Nothing
    );
    assert_eq!(picker.selection.draft, range(ymd(2024, 7, 1), ymd(2024, 7, 7)));
    assert_eq!(picker.selection.hover, None);
    assert_eq!(picker.selection.committed, confirmed);
    assert_eq!(picker.month, ymd(2024, 7, 1));

    let today = ymd(2024, 8, 1);
    picker.apply(PickerEvent::SetQuickRange(QuickRange::Week, today));
    assert_eq!(picker.selection.draft, range(ymd(2024, 7, 29), ymd(2024, 8, 4)));
    assert_eq!(picker.month, ymd(2024, 7, 1));

    picker.apply(PickerEvent::SetQuickRange(QuickRange::Month, today));
    assert_eq!(picker.selection.draft, range(ymd(2024, 8, 1), ymd(2024, 8, 31)));
    assert_eq!(picker.month, ymd(2024, 8, 1));
    assert_eq!(picker.selection.committed, confirmed);
}

#[test]
fn the_cells_of_a_picker() {
    let mut picker = PickerState::new(None, None, Some(ymd(2024, 6, 12)));
    picker.apply(PickerEvent::Click(ymd(2024, 6, 10)));
    picker.apply(PickerEvent::Hover(ymd(2024, 6, 12)));
    let cells = picker.month_cells(picker.month);
    assert_eq!(cells.len(), 42);
    assert_eq!(cells[0].date, ymd(2024, 5, 27));
    assert_eq!(cells[41].date, ymd(2024, 7, 7));
    for (i, cell) in cells.iter().enumerate() {
        let day = i as i64 - 4;
        assert_eq!(cell.is_current_month, (1..=30).contains(&day));
        assert_eq!(cell.is_range_start, day == 10);
        assert_eq!(cell.is_range_end, day == 12);
        assert_eq!(cell.is_in_range, (10..=12).contains(&day));
        assert!(cell.is_selectable);
        assert_eq!(*cell, picker.day_cell(picker.month, cell.date));
    }
    assert_eq!(
        cells[14],
        DayCell {
            date: ymd(2024, 6, 10),
            is_current_month: true,
            is_range_start: true,
            is_range_end: false,
            is_in_range: true,
            is_selectable: true,
        }
    );
}

#[test]
fn a_cell_outside_the_month() {
    let shown = range(ymd(2024, 5, 30), ymd(2024, 5, 30));
    assert_eq!(
        day_cell(ymd(2024, 5, 30), 6, shown, false),
        DayCell {
            date: ymd(2024, 5, 30),
            is_current_month: false,
            is_range_start: true,
            is_range_end: true,
            is_in_range: true,
            is_selectable: false,
        }
    );
    assert!(day_cell(ymd(2024, 5, 30), 6, shown, true).is_selectable);
    assert_eq!(
        day_cell(ymd(2024, 6, 1), 6, None, false),
        DayCell {
            date: ymd(2024, 6, 1),
            is_current_month: true,
            is_range_start: false,
            is_range_end: false,
            is_in_range: false,
            is_selectable: true,
        }
    );
}

#[test]
fn a_calendar_selects_a_day() {
    let mut calendar = CalendarState::new(ymd(2024, 6, 12), None, false);
    assert_eq!(calendar.month, ymd(2024, 6, 1));
    assert_eq!(calendar.title(), "June 2024");
    assert!(calendar.select(ymd(2024, 6, 20)));
    assert_eq!(calendar.selected, Some(ymd(2024, 6, 20)));
    assert!(!calendar.select(ymd(2024, 5, 31)));
    assert!(!calendar.select(ymd(2024, 7, 1)));
    assert_eq!(calendar.selected, Some(ymd(2024, 6, 20)));

    let mut open = CalendarState::new(ymd(2024, 6, 12), Some(ymd(2024, 6, 20)), true);
    assert!(open.select(ymd(2024, 5, 31)));
    assert_eq!(open.selected, Some(ymd(2024, 5, 31)));
    assert_eq!(open.month, ymd(2024, 6, 1));
}

#[test]
fn a_calendar_moves_its_month() {
    let mut calendar = CalendarState::new(ymd(2024, 12, 25), Some(ymd(2024, 12, 25)), false);
    calendar.show_next_month();
    assert_eq!(calendar.month, ymd(2025, 1, 1));
    assert_eq!(calendar.title(), "January 2025");
    calendar.show_previous_month();
    calendar.show_previous_month();
    assert_eq!(calendar.month, ymd(2024, 11, 1));
    assert_eq!(calendar.selected, Some(ymd(2024, 12, 25)));
    assert!(!calendar.show_outside_days);
    assert_eq!(month_label(ymd(2024, 2, 29)), "February 2024");
}

#[test]
fn the_cells_of_a_calendar() {
    let calendar = CalendarState::new(ymd(2024, 6, 12), Some(ymd(2024, 6, 1)), false);
    let cells = calendar.cells();
    assert_eq!(cells.len(), 42);
    assert_eq!(
        cells[0],
        CalendarDay {
            date: ymd(2024, 5, 27),
            is_current_month: false,
            is_selected: false,
            is_disabled: true,
        }
    );
    assert_eq!(
        cells[5],
        CalendarDay {
            date: ymd(2024, 6, 1),
            is_current_month: true,
            is_selected: true,
            is_disabled: false,
        }
    );
    assert_eq!(cells[41].date, ymd(2024, 7, 7));
    assert!(cells[41].is_disabled);
    for cell in cells.iter() {
        assert_eq!(*cell, calendar.cell(cell.date));
    }
    let open = CalendarState::new(ymd(2024, 6, 12), None, true);
    assert!(open.cells().iter().all(|cell| !cell.is_disabled && !cell.is_selected));
}
