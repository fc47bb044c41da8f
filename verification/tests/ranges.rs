use calendar_engine::range::{
    describe_range, quick_range_month, quick_range_week, range_preview, DateRange,
};
use calendar_engine::time::NaiveDate;

fn ymd(year: i32, month: u32, day: u32) -> NaiveDate {
    NaiveDate::from_ymd_opt(year, month, day).unwrap()
}

#[test]
fn a_range_is_in_order() {
    let a = ymd(2024, 6, 10);
    let b = ymd(2024, 6, 5);
    let range = DateRange::new(a, b);
    assert_eq!(range.start, b);
    assert_eq!(range.end, a);
    assert!(range.start <= range.end);
    assert_eq!(DateRange::new(a, b), DateRange::new(b, a));
    let same = DateRange::new(a, a);
    assert_eq!(same.start, a);
    assert_eq!(same.end, a);
    assert!(same.contains(&a));
}

#[test]
fn a_range_holds_its_days() {
    let range = DateRange::new(ymd(2024, 6, 10), ymd(2024, 6, 5));
    assert!(range.contains(&ymd(2024, 6, 5)));
    assert!(range.contains(&ymd(2024, 6, 7)));
    assert!(range.contains(&ymd(2024, 6, 10)));
    assert!(!range.contains(&ymd(2024, 6, 4)));
    assert!(!range.contains(&ymd(2024, 6, 11)));
    let backwards = DateRange { start: ymd(2024, 6, 10), end: ymd(2024, 6, 5) };
    assert!(!backwards.contains(&ymd(2024, 6, 7)));
}

#[test]
fn the_preview_follows_the_pointer_while_one_day_is_picked() {
    let anchor = DateRange::new(ymd(2024, 6, 10), ymd(2024, 6, 10));
    assert_eq!(
        range_preview(Some(anchor), Some(ymd(2024, 6, 15))),
        Some(DateRange { start: ymd(2024, 6, 10), end: ymd(2024, 6, 15) })
    );
    assert_eq!(
        range_preview(Some(anchor), Some(ymd(2024, 6, 2))),
        Some(DateRange { start: ymd(2024, 6, 2), end: ymd(2024, 6, 10) })
    );
    assert_eq!(range_preview(Some(anchor), Some(ymd(2024, 6, 10))), Some(anchor));
    assert_eq!(range_preview(Some(anchor), None), Some(anchor));
    let range = DateRange::new(ymd(2024, 6, 10), ymd(2024, 6, 12));
    assert_eq!(range_preview(Some(range), Some(ymd(2024, 6, 15))), Some(range));
    assert_eq!(range_preview(Some(range), None), Some(range));
    assert_eq!(range_preview(None, Some(ymd(2024, 6, 15))), None);
    assert_eq!(range_preview(None, None), None);
}

#[test]
fn the_week_of_a_day() {
    let week = quick_range_week(ymd(2024, 6, 12));
    assert_eq!(week.start, ymd(2024, 6, 10));
    assert_eq!(week.end, ymd(2024, 6, 16));
    assert_eq!(quick_range_week(ymd(2024, 6, 10)), week);
    assert_eq!(quick_range_week(ymd(2024, 6, 16)), week);
    let across = quick_range_week(ymd(2025, 1, 1));
    assert_eq!(across.start, ymd(2024, 12, 30));
    assert_eq!(across.end, ymd(2025, 1, 5));
}

#[test]
fn the_month_of_a_day() {
    let month = quick_range_month(ymd(2024, 2, 10));
    assert_eq!(month.start, ymd(2024, 2, 1));
    assert_eq!(month.end, ymd(2024, 2, 29));
    let december = quick_range_month(ymd(2023, 12, 31));
    assert_eq!(december.start, ymd(2023, 12, 1));
    assert_eq!(december.end, ymd(2023, 12, 31));
}

#[test]
fn the_month_of_a_day_at_the_ends() {
    let last = NaiveDate::from_days_since_epoch(i32::MAX as i64).unwrap();
    let month = quick_range_month(last);
    assert_eq!(month.start, ymd(5_881_580, 6, 30));
    assert_eq!(month.end, ymd(5_881_580, 7, 1));
    let first = NaiveDate::from_days_since_epoch(i32::MIN as i64).unwrap();
    let month = quick_range_month(first);
    assert_eq!(month.start, first);
    assert_eq!(month.end, ymd(-5_877_641, 6, 30));
}

#[test]
fn the_name_of_a_range() {
    let day = DateRange::new(ymd(2024, 6, 10), ymd(2024, 6, 10));
    assert_eq!(describe_range(day), "Jun 10 2024");
    let range = DateRange::new(ymd(2024, 6, 10), ymd(2024, 6, 5));
    assert_eq!(describe_range(range), "Jun 05 → Jun 10 2024");
    let years = DateRange::new(ymd(2023, 12, 31), ymd(2024, 1, 1));
    assert_eq!(describe_range(years), "Dec 31 → Jan 01 2024");
}
