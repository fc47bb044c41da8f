use calendar_engine::format::{format_ymd, full_month, short_month};
use calendar_engine::time::NaiveDate;

fn ymd(year: i32, month: u32, day: u32) -> NaiveDate {
    NaiveDate::from_ymd_opt(year, month, day).unwrap()
}

#[test]
fn format_year_month_day() {
    assert_eq!(ymd(2024, 1, 5).format("%Y-%m-%d").to_string(), "2024-01-05");
    assert_eq!(ymd(2024, 12, 31).format("%Y-%m-%d").to_string(), "2024-12-31");
}

#[test]
fn format_month_name_and_year() {
    assert_eq!(ymd(2024, 6, 1).format("%B %Y").to_string(), "June 2024");
    assert_eq!(ymd(2024, 6, 1).format("%b %d %Y").to_string(), "Jun 01 2024");
    assert_eq!(ymd(2024, 9, 30).format("%d %b").to_string(), "30 Sep");
}

#[test]
fn format_pads_with_zeros() {
    assert_eq!(ymd(5, 3, 7).format("%Y/%m/%d").to_string(), "0005/03/07");
    assert_eq!(ymd(0, 1, 1).format("%Y").to_string(), "0000");
    assert_eq!(ymd(987, 1, 1).format("%Y").to_string(), "0987");
    assert_eq!(ymd(12_345, 10, 11).format("%Y-%m-%d").to_string(), "12345-10-11");
    assert_eq!(ymd(-5, 1, 1).format("%Y").to_string(), "-005");
    assert_eq!(ymd(-44, 3, 15).format("%Y-%m-%d").to_string(), "-044-03-15");
    assert_eq!(ymd(-1234, 1, 1).format("%Y").to_string(), "-1234");
    assert_eq!(ymd(-5_000_000, 1, 1).format("%Y").to_string(), "-5000000");
}

#[test]
fn format_percent_and_unknown_directives() {
    let date = ymd(2024, 6, 1);
    assert_eq!(date.format("100%%").to_string(), "100%");
    assert_eq!(date.format("%%Y").to_string(), "%Y");
    assert_eq!(date.format("%q").to_string(), "%q");
    assert_eq!(date.format("%H:%M").to_string(), "%H:%M");
    assert_eq!(date.format("%y").to_string(), "%y");
    assert_eq!(date.format("%é%d").to_string(), "%é01");
    assert_eq!(date.format("% %d").to_string(), "% 01");
}

#[test]
fn format_copies_other_text() {
    let date = ymd(2024, 6, 1);
    assert_eq!(date.format("").to_string(), "");
    assert_eq!(date.format("plain").to_string(), "plain");
    assert_eq!(date.format("日付: %Y年%m月%d日").to_string(), "日付: 2024年06月01日");
    assert_eq!(date.format("%d%d").to_string(), "0101");
}

#[test]
fn format_drops_a_percent_sign_at_the_end() {
    let date = ymd(2024, 6, 1);
    assert_eq!(date.format("%").to_string(), "");
    assert_eq!(date.format("%d%").to_string(), "01");
    assert_eq!(date.format("%%%").to_string(), "%");
}

#[test]
fn format_internal_gives_the_same_text() {
    let date = ymd(2024, 1, 5);
    assert_eq!(date.format_internal("%Y-%m-%d"), "2024-01-05");
    assert_eq!(date.format_internal("%B"), "January");
    let formatted = date.format("%b");
    let copy = formatted;
    assert_eq!(formatted.to_string(), copy.to_string());
}

#[test]
fn format_fields_as_they_are() {
    assert_eq!(format_ymd(2024, 1, 5, "%Y-%m-%d"), "2024-01-05");
    assert_eq!(format_ymd(2024, 13, 5, "%B %b %m"), "Unknown Unk 13");
    assert_eq!(format_ymd(2024, 1, 123, "%d"), "123");
    assert_eq!(format_ymd(i32::MIN, u32::MAX, u32::MAX, "%Y %m %d"), "-2147483648 4294967295 4294967295");
    assert_eq!(format_ymd(i32::MAX, 0, 0, "%Y %m %d"), "2147483647 00 00");
}

#[test]
fn month_names() {
    let full = [
        "January", "February", "March", "April", "May", "June", "July", "August", "September",
        "October", "November", "December",
    ];
    let short = [
        "Jan", "Feb", "Mar", "Apr", "May", "Jun", "Jul", "Aug", "Sep", "Oct", "Nov", "Dec",
    ];
    for month in 1..=12u32 {
        assert_eq!(full_month(month), full[month as usize - 1]);
        assert_eq!(short_month(month), short[month as usize - 1]);
        assert_eq!(ymd(2024, month, 1).format("%B").to_string(), full[month as usize - 1]);
        assert_eq!(ymd(2024, month, 1).format("%b").to_string(), short[month as usize - 1]);
    }
    assert_eq!(full_month(0), "Unknown");
    assert_eq!(full_month(13), "Unknown");
    assert_eq!(short_month(0), "Unk");
    assert_eq!(short_month(13), "Unk");
}
