//! The proleptic Gregorian calendar as arithmetic on day numbers.
//!
//! A day number counts whole days from 1970-01-01, which is day 0. The
//! specification functions here define the calendar directly: a year has 365
//! days and one more when it is a leap year, and a date's day number is the
//! count of days in the years and months before it. The executable functions
//! split a day number into eras of 400 years that start on a 1st of March,
//! and are proved against that model.

use vstd::prelude::*;

verus! {

/// The Gregorian leap-year rule.
pub open spec fn is_leap_year_spec(year: int) -> bool {
    (year % 4 == 0 && year % 100 != 0) || year % 400 == 0
}

/// The length of a month in days, and 0 for a month outside 1..=12.
pub open spec fn days_in_month_spec(year: int, month: int) -> int {
    if month == 1 || month == 3 || month == 5 || month == 7 || month == 8 || month == 10 || month
        == 12 {
        31
    } else if month == 4 || month == 6 || month == 9 || month == 11 {
        30
    } else if month == 2 {
        if is_leap_year_spec(year) {
            29
        } else {
            28
        }
    } else {
        0
    }
}

/// Whether `(year, month, day)` names a day of the calendar.
pub open spec fn valid_ymd(year: int, month: int, day: int) -> bool {
    1 <= month <= 12 && 1 <= day <= days_in_month_spec(year, month)
}

/// The number of leap years among the years `1..=year`, continued to all
/// integers.
pub open spec fn leap_years_through(year: int) -> int {
    year / 4 - year / 100 + year / 400
}

/// The day number of January 1st of `year`: 365 days for each year since
/// 1970, and one more for each leap year among them.
#[verifier::opaque]
pub open spec fn days_before_year(year: int) -> int {
    365 * (year - 1970) + leap_years_through(year - 1) - leap_years_through(1969)
}

/// The number of days of `year` that lie in the months before `month`.
pub open spec fn days_before_month(year: int, month: int) -> int
    decreases month,
{
    if month <= 1 {
        0
    } else {
        days_before_month(year, month - 1) + days_in_month_spec(year, month - 1)
    }
}

/// The day number of the date `(year, month, day)`.
pub open spec fn days_from_civil_spec(year: int, month: int, day: int) -> int {
    days_before_year(year) + days_before_month(year, month) + day - 1
}

/// The year in which day `n` falls.
pub open spec fn year_of_day(n: int) -> int {
    choose|y: int| #[trigger] days_before_year(y) <= n < days_before_year(y + 1)
}

/// The month, 1..=12, in which day `n` falls.
pub open spec fn month_of_day(n: int) -> int {
    let y = year_of_day(n);
    choose|m: int|
        1 <= m <= 12 && #[trigger] days_before_month(y, m) <= n - days_before_year(y)
            < days_before_month(y, m + 1)
}

/// The day of the month, counted from 1, on which day `n` falls.
pub open spec fn day_of_day(n: int) -> int {
    let y = year_of_day(n);
    n - days_before_year(y) - days_before_month(y, month_of_day(n)) + 1
}

/// The day of a common year, counted from 0, on which each month starts.
pub open spec fn month_start_table(month: int) -> int {
    if month <= 1 {
        0
    } else if month == 2 {
        31
    } else if month == 3 {
        59
    } else if month == 4 {
        90
    } else if month == 5 {
        120
    } else if month == 6 {
        151
    } else if month == 7 {
        181
    } else if month == 8 {
        212
    } else if month == 9 {
        243
    } else if month == 10 {
        273
    } else if month == 11 {
        304
    } else if month == 12 {
        334
    } else {
        365
    }
}

proof fn lemma_quotient_step_4(x: int)
    ensures
        x / 4 - (x - 1) / 4 == if x % 4 == 0 {
            1int
        } else {
            0int
        },
{
}

proof fn lemma_quotient_step_100(x: int)
    ensures
        x / 100 - (x - 1) / 100 == if x % 100 == 0 {
            1int
        } else {
            0int
        },
{
}

proof fn lemma_quotient_step_400(x: int)
    ensures
        x / 400 - (x - 1) / 400 == if x % 400 == 0 {
            1int
        } else {
            0int
        },
{
}

proof fn lemma_century_divides(x: int)
    ensures
        x % 400 == 0 ==> x % 100 == 0,
        x % 100 == 0 ==> x % 4 == 0,
{
    if x % 400 == 0 {
        assert(x == 100 * (4 * (x / 400)));
    }
    if x % 100 == 0 {
        assert(x == 4 * (25 * (x / 100)));
    }
}

/// Each year adds one to the count of leap years exactly when it is one.
pub proof fn lemma_leap_years_step(year: int)
    ensures
        leap_years_through(year) - leap_years_through(year - 1) == if is_leap_year_spec(year) {
            1int
        } else {
            0int
        },
{
    lemma_quotient_step_4(year);
    lemma_quotient_step_100(year);
    lemma_quotient_step_400(year);
    lemma_century_divides(year);
}

/// 1970 starts on day 0.
pub proof fn lemma_epoch()
    ensures
        days_before_year(1970) == 0,
        days_from_civil_spec(1970, 1, 1) == 0,
{
    reveal(days_before_year);
}

/// A year is 365 days long, and 366 when it is a leap year.
pub proof fn lemma_year_length(year: int)
    ensures
        days_before_year(year + 1) - days_before_year(year) == if is_leap_year_spec(year) {
            366int
        } else {
            365int
        },
{
    reveal(days_before_year);
    lemma_leap_years_step(year);
}

/// The months before each month of a year hold the days of the usual table.
pub proof fn lemma_days_before_month(year: int, month: int)
    requires
        1 <= month <= 13,
    ensures
        days_before_month(year, month) == month_start_table(month) + if month > 2
            && is_leap_year_spec(year) {
            1int
        } else {
            0int
        },
        month <= 12 ==> days_before_month(year, month + 1) == days_before_month(year, month)
            + days_in_month_spec(year, month),
{
    reveal_with_fuel(days_before_month, 14);
}

/// A quotient by 4, 100 or 400 grows with the number, and by no more than
/// the number does.
proof fn lemma_quotients_grow(a: int, b: int)
    requires
        a <= b,
    ensures
        a / 4 <= b / 4,
        a / 400 <= b / 400,
        b / 100 - a / 100 <= b - a,
{
}

/// Later years start on later days.
pub proof fn lemma_days_before_year_increases(earlier: int, later: int)
    requires
        earlier < later,
    ensures
        days_before_year(earlier + 1) <= days_before_year(later),
        days_before_year(earlier) < days_before_year(later),
{
    reveal(days_before_year);
    lemma_quotients_grow(earlier, later - 1);
    assert(leap_years_through(later - 1) - leap_years_through(earlier) >= -(later - 1 - earlier));
    assert(days_before_year(later) - days_before_year(earlier + 1) == 365 * (later - 1 - earlier)
        + leap_years_through(later - 1) - leap_years_through(earlier));
    lemma_year_length(earlier);
}

/// A date's day number lies within its year and within its month.
pub proof fn lemma_day_number_bounds(year: int, month: int, day: int)
    requires
        valid_ymd(year, month, day),
    ensures
        days_before_year(year) <= days_from_civil_spec(year, month, day) < days_before_year(
            year + 1,
        ),
        days_before_month(year, month) <= days_from_civil_spec(year, month, day)
            - days_before_year(year) < days_before_month(year, month + 1),
{
    lemma_year_length(year);
    lemma_days_before_month(year, month);
    lemma_days_before_month(year, 13);
}

/// Turning a date into its day number and back gives the date again.
pub proof fn lemma_civil_round_trip(year: int, month: int, day: int)
    requires
        valid_ymd(year, month, day),
    ensures
        year_of_day(days_from_civil_spec(year, month, day)) == year,
        month_of_day(days_from_civil_spec(year, month, day)) == month,
        day_of_day(days_from_civil_spec(year, month, day)) == day,
{
    let n = days_from_civil_spec(year, month, day);
    lemma_day_number_bounds(year, month, day);
    let y = year_of_day(n);
    assert(days_before_year(y) <= n < days_before_year(y + 1));
    if y < year {
        lemma_days_before_year_increases(y, year);
    }
    if year < y {
        lemma_days_before_year_increases(year, y);
    }
    assert(y == year);
    let m = month_of_day(n);
    let rest = n - days_before_year(year);
    assert(1 <= m <= 12 && days_before_month(year, m) <= rest < days_before_month(year, m + 1));
    lemma_days_before_month(year, m);
    lemma_days_before_month(year, month);
    assert(m == month);
}

/// The days of an era that lie before year `k` of the era. An era is 400
/// years that start on a 1st of March.
spec fn era_days_before(k: int) -> int {
    365 * k + k / 4 - k / 100
}

/// The year of its era in which day `doe` of the era falls.
spec fn year_of_era(doe: int) -> int {
    (doe - doe / 1460 + doe / 36524 - doe / 146096) / 365
}

/// The month, counted from 0 for March, in which day `doy` of a year that
/// starts in March falls.
spec fn month_of_march_year(doy: int) -> int {
    (5 * doy + 2) / 153
}

/// The day on which month `mp` starts in a year that starts in March, where
/// `mp` counts from 0 for March.
spec fn march_month_start(mp: int) -> int {
    (153 * mp + 2) / 5
}

/// The date, as `(year, month, day)`, of day `doe` of era `era`.
spec fn civil_from_era(era: int, doe: int) -> (int, int, int) {
    let yoe = year_of_era(doe);
    let doy = doe - era_days_before(yoe);
    let mp = month_of_march_year(doy);
    let day = doy - march_month_start(mp) + 1;
    let month = if mp < 10 {
        mp + 3
    } else {
        mp - 9
    };
    let year = yoe + 400 * era + if month <= 2 {
        1int
    } else {
        0int
    };
    (year, month, day)
}

/// A year counted in eras of 400 years: the days before its end, in the era's
/// own terms.
proof fn lemma_era_split(y: int, era: int, yoe: int)
    requires
        y == 400 * era + yoe,
        0 <= yoe < 400,
    ensures
        y / 400 == era,
        365 * y + leap_years_through(y) == 146097 * era + era_days_before(yoe),
{
    assert(y / 4 == 100 * era + yoe / 4);
    assert(y / 100 == 4 * era + yoe / 100);
    assert(y / 400 == era);
}

/// The months of a year that starts in March start on the days that the
/// month formula gives.
proof fn lemma_march_month_start(mp: int)
    requires
        0 <= mp <= 11,
    ensures
        march_month_start(mp) == if mp < 10 {
            month_start_table(mp + 3) - 59
        } else {
            month_start_table(mp - 9) + 306
        },
{
    if mp == 0 {
    } else if mp == 1 {
    } else if mp == 2 {
    } else if mp == 3 {
    } else if mp == 4 {
    } else if mp == 5 {
    } else if mp == 6 {
    } else if mp == 7 {
    } else if mp == 8 {
    } else if mp == 9 {
    } else if mp == 10 {
    } else {
    }
}

/// The day number of a date, counted through the years that start in March:
/// `y` is the year in which the date's March-year starts, and `mp` its month
/// counted from 0 for March.
proof fn lemma_march_form(year: int, month: int, day: int, y: int, mp: int)
    requires
        1 <= month <= 12,
        y == if month <= 2 {
            year - 1
        } else {
            year
        },
        mp == if month <= 2 {
            month + 9
        } else {
            month - 3
        },
    ensures
        days_from_civil_spec(year, month, day) == 365 * y + leap_years_through(y)
            + march_month_start(mp) + day - 1 - 719468,
{
    reveal(days_before_year);
    lemma_leap_years_step(year);
    lemma_days_before_month(year, month);
    lemma_march_month_start(mp);
    assert(leap_years_through(1969) == 477);
    if month <= 2 {
        assert(days_before_month(year, month) == month_start_table(month));
        assert(march_month_start(mp) == month_start_table(month) + 306);
    } else {
        assert(march_month_start(mp) == month_start_table(month) - 59);
        assert(leap_years_through(year - 1) + days_before_month(year, month)
            == leap_years_through(year) + month_start_table(month));
    }
}

/// Day `doe` of an era lies in year `year_of_era(doe)` of it.
#[verifier::rlimit(50)]
proof fn lemma_year_of_era(doe: int)
    requires
        0 <= doe <= 146096,
    ensures
        0 <= year_of_era(doe) <= 399,
        0 <= doe - era_days_before(year_of_era(doe)) <= 365,
        year_of_era(doe) < 399 ==> doe < era_days_before(year_of_era(doe) + 1),
{
    let d: u32 = doe as u32;
    assert(d <= 146096u32 ==> ({
        let k = ((d - d / 1460u32 + d / 36524u32 - d / 146096u32) as u32) / 365u32;
        let before = (365u32 * k + k / 4u32 - k / 100u32) as u32;
        let next = (k + 1u32) as u32;
        &&& k <= 399u32
        &&& before <= d
        &&& (d - before) as u32 <= 365u32
        &&& (k < 399u32 ==> d < (365u32 * next + next / 4u32 - next / 100u32) as u32)
    })) by (bit_vector);
}

/// Day `doy` of a year that starts in March lies in month
/// `month_of_march_year(doy)` of it.
#[verifier::rlimit(50)]
proof fn lemma_month_of_march_year(doy: int)
    requires
        0 <= doy <= 365,
    ensures
        0 <= month_of_march_year(doy) <= 11,
        march_month_start(month_of_march_year(doy)) <= doy,
        month_of_march_year(doy) < 11 ==> doy < march_month_start(month_of_march_year(doy) + 1),
{
    let d: u32 = doy as u32;
    assert(d <= 365u32 ==> ({
        let mp = ((5u32 * d + 2u32) as u32) / 153u32;
        &&& mp <= 11u32
        &&& ((153u32 * mp + 2u32) as u32) / 5u32 <= d
        &&& (mp < 11u32 ==> d < ((153u32 * ((mp + 1u32) as u32) + 2u32) as u32) / 5u32)
    })) by (bit_vector);
}

/// The year that starts in March of `y` has a day 365 only where it ends in a
/// leap day, that of the year `y + 1`.
proof fn lemma_march_year_length(y: int, era: int, doe: int)
    requires
        0 <= doe <= 146096,
        y == 400 * era + year_of_era(doe),
        doe - era_days_before(year_of_era(doe)) == 365,
    ensures
        is_leap_year_spec(y + 1),
{
    let yoe = year_of_era(doe);
    lemma_year_of_era(doe);
    if yoe < 399 {
        assert(doe < era_days_before(yoe + 1));
        lemma_quotient_step_4(yoe + 1);
        lemma_quotient_step_100(yoe + 1);
        lemma_century_divides(yoe + 1);
        assert((yoe + 1) % 4 == 0 && (yoe + 1) % 100 != 0);
        assert((y + 1) % 4 == (yoe + 1) % 4) by {
            assert(y + 1 == 4 * (100 * era) + (yoe + 1));
        }
        assert((y + 1) % 100 == (yoe + 1) % 100) by {
            assert(y + 1 == 100 * (4 * era) + (yoe + 1));
        }
    } else {
        assert(y + 1 == 400 * (era + 1));
        assert((y + 1) % 400 == 0);
    }
}

/// Day `doy` of the year that starts in March of `y` is a day of the month
/// that the month formula finds.
proof fn lemma_day_of_march_year(y: int, doy: int)
    requires
        0 <= doy <= 365,
        doy == 365 ==> is_leap_year_spec(y + 1),
    ensures
        ({
            let mp = month_of_march_year(doy);
            let day = doy - march_month_start(mp) + 1;
            let month = if mp < 10 {
                mp + 3
            } else {
                mp - 9
            };
            &&& 0 <= mp <= 11
            &&& valid_ymd(
                if month <= 2 {
                    y + 1
                } else {
                    y
                },
                month,
                day,
            )
        }),
{
    lemma_month_of_march_year(doy);
    let mp = month_of_march_year(doy);
    lemma_march_month_start(mp);
    if mp < 11 {
        lemma_march_month_start(mp + 1);
    }
}

/// The date that the era decomposition finds for day `n` is a date of the
/// calendar, and `n` is its day number.
proof fn lemma_civil_from_era(n: int, era: int, doe: int)
    requires
        n + 719468 == 146097 * era + doe,
        0 <= doe <= 146096,
    ensures
        0 <= year_of_era(doe) <= 399,
        0 <= doe - era_days_before(year_of_era(doe)) <= 365,
        0 <= month_of_march_year(doe - era_days_before(year_of_era(doe))) <= 11,
        valid_ymd(
            civil_from_era(era, doe).0,
            civil_from_era(era, doe).1,
            civil_from_era(era, doe).2,
        ),
        days_from_civil_spec(
            civil_from_era(era, doe).0,
            civil_from_era(era, doe).1,
            civil_from_era(era, doe).2,
        ) == n,
{
    let yoe = year_of_era(doe);
    let doy = doe - era_days_before(yoe);
    let mp = month_of_march_year(doy);
    let day = doy - march_month_start(mp) + 1;
    let month = if mp < 10 {
        mp + 3
    } else {
        mp - 9
    };
    let y = yoe + 400 * era;
    let year = y + if month <= 2 {
        1int
    } else {
        0int
    };
    assert(civil_from_era(era, doe) == (year, month, day));
    lemma_year_of_era(doe);
    if doy == 365 {
        lemma_march_year_length(y, era, doe);
    }
    lemma_day_of_march_year(y, doy);
    lemma_era_split(y, era, yoe);
    lemma_march_form(year, month, day, y, mp);
}

/// Every day number is the day number of a date of the calendar: the date of
/// its year, month and day.
pub proof fn lemma_civil_of_day(n: int)
    ensures
        valid_ymd(year_of_day(n), month_of_day(n), day_of_day(n)),
        days_from_civil_spec(year_of_day(n), month_of_day(n), day_of_day(n)) == n,
{
    let era = (n + 719468) / 146097;
    let doe = (n + 719468) % 146097;
    lemma_civil_from_era(n, era, doe);
    let date = civil_from_era(era, doe);
    lemma_civil_round_trip(date.0, date.1, date.2);
}

/// The years of the days whose number fits in an `i32`.
pub proof fn lemma_year_range(n: int)
    requires
        i32::MIN <= n <= i32::MAX,
    ensures
        -5_900_000 <= year_of_day(n) <= 5_900_000,
{
    lemma_civil_of_day(n);
    let year = year_of_day(n);
    lemma_day_number_bounds(year, month_of_day(n), day_of_day(n));
    if year > 5_900_000 {
        lemma_days_before_year_increases(5_900_000, year);
        assert(days_before_year(5_900_001) > i32::MAX) by {
            reveal(days_before_year);
        }
    }
    if year < -5_900_000 {
        lemma_days_before_year_increases(year, -5_900_000);
        assert(days_before_year(-5_900_000) < i32::MIN) by {
            reveal(days_before_year);
        }
    }
}

/// Whether `year` is a leap year.
pub fn is_leap_year(year: i32) -> (leap: bool)
    ensures
        leap == is_leap_year_spec(year as int),
{
    let by_4 = year % 4 == 0;
    assert(by_4 == (year as int % 4 == 0));
    let by_100 = year % 100 == 0;
    assert(by_100 == (year as int % 100 == 0));
    let by_400 = year % 400 == 0;
    assert(by_400 == (year as int % 400 == 0));
    (by_4 && !by_100) || by_400
}

/// The number of days in `month` of `year`; 0 where `month` is not in 1..=12.
pub fn days_in_month(year: i32, month: u32) -> (days: u32)
    ensures
        days == days_in_month_spec(year as int, month as int),
{
    match month {
        1 | 3 | 5 | 7 | 8 | 10 | 12 => 31,
        4 | 6 | 9 | 11 => 30,
        2 => if is_leap_year(year) {
            29
        } else {
            28
        },
        _ => 0,
    }
}

/// The day number of a date of the calendar, or `None` where it does not fit
/// in an `i32`.
#[verifier::rlimit(40)]
pub fn days_from_civil(year: i32, month: u32, day: u32) -> (days: Option<i32>)
    requires
        valid_ymd(year as int, month as int, day as int),
    ensures
        match days {
            Some(n) => n == days_from_civil_spec(year as int, month as int, day as int),
            None => !(i32::MIN <= days_from_civil_spec(year as int, month as int, day as int)
                <= i32::MAX),
        },
{
    let y: i64 = year as i64 - if month <= 2 {
        1
    } else {
        0
    };
    let era: i64 = (if y >= 0 {
        y
    } else {
        y - 399
    }) / 400;
    assert(era == y as int / 400);
    let yoe: i64 = y - era * 400;
    assert(0 <= yoe < 400);
    let mp: i64 = month as i64 + if month > 2 {
        -3
    } else {
        9
    };
    let doy: i64 = (153 * mp + 2) / 5 + day as i64 - 1;
    assert(doy == march_month_start(mp as int) + day - 1);
    let doe: i64 = yoe * 365 + yoe / 4 - yoe / 100 + doy;
    assert(doe == era_days_before(yoe as int) + doy);
    let days: i64 = era * 146097 + doe - 719_468;
    proof {
        lemma_era_split(y as int, era as int, yoe as int);
        lemma_march_form(year as int, month as int, day as int, y as int, mp as int);
    }
    if days < i32::MIN as i64 || days > i32::MAX as i64 {
        None
    } else {
        Some(days as i32)
    }
}

/// The date, as `(year, month, day)`, whose day number is `days`.
#[verifier::rlimit(40)]
pub fn civil_from_days(days: i32) -> (date: (i32, u32, u32))
    ensures
        date.0 == year_of_day(days as int),
        date.1 == month_of_day(days as int),
        date.2 == day_of_day(days as int),
        valid_ymd(date.0 as int, date.1 as int, date.2 as int),
        days_from_civil_spec(date.0 as int, date.1 as int, date.2 as int) == days,
{
    let shifted: i64 = days as i64 + 719_468;
    let era: i64 = if shifted >= 0 {
        shifted / 146_097
    } else {
        (shifted - 146_096) / 146_097
    };
    assert(era == shifted as int / 146_097);
    let doe: i64 = shifted - era * 146_097;
    assert(0 <= doe <= 146_096);
    proof {
        lemma_civil_from_era(days as int, era as int, doe as int);
    }
    let yoe: i64 = (doe - doe / 1_460 + doe / 36_524 - doe / 146_096) / 365;
    assert(yoe == year_of_era(doe as int));
    let mut y: i64 = yoe + era * 400;
    let doy: i64 = doe - (365 * yoe + yoe / 4 - yoe / 100);
    assert(doy == doe - era_days_before(yoe as int));
    let mp: i64 = (5 * doy + 2) / 153;
    assert(mp == month_of_march_year(doy as int));
    let day: i64 = doy - (153 * mp + 2) / 5 + 1;
    assert(day == doy - march_month_start(mp as int) + 1);
    let month: i64 = mp + if mp < 10 {
        3
    } else {
        -9
    };
    y += if month <= 2 {
        1
    } else {
        0
    };
    assert((y as int, month as int, day as int) == civil_from_era(era as int, doe as int));
    proof {
        lemma_civil_round_trip(y as int, month as int, day as int);
    }
    (y as i32, month as u32, day as u32)
}

} // verus!
