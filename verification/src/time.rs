//! Calendar dates as day numbers, spans of whole days, and weekdays.

use crate::civil::{
    civil_from_days, day_of_day, days_from_civil, days_from_civil_spec, days_in_month,
    lemma_civil_of_day, month_of_day, valid_ymd, year_of_day,
};
use crate::format::{format_spec, format_ymd};
use core::cmp::Ordering;
use core::ops::{Add, AddAssign, Sub, SubAssign};
use std::time::{SystemTime, SystemTimeError, UNIX_EPOCH};
use vstd::prelude::*;
use vstd::std_specs::cmp::PartialOrdSpecImpl;
use vstd::std_specs::ops::{AddSpecImpl, SubSpecImpl};

verus! {

/// A day of the proleptic Gregorian calendar, held as its day number.
///
/// The view of a date is its day number: the count of days from 1970-01-01.
/// Every `i32` is the day number of one date, and dates are ordered as their
/// day numbers are.
#[derive(Clone, Copy, Debug, PartialEq, Eq, Structural, Ord, Hash)]
pub struct NaiveDate {
    days_since_epoch: i32,
}

/// A signed count of whole days. Its view is that count.
#[derive(Clone, Copy, Debug, PartialEq, Eq, Structural)]
pub struct Duration {
    days: i64,
}

/// A day of the week.
#[derive(Clone, Copy, Debug, PartialEq, Eq, Structural)]
pub enum Weekday {
    Monday,
    Tuesday,
    Wednesday,
    Thursday,
    Friday,
    Saturday,
    Sunday,
}

/// Why a year, a month and a day do not make a date.
#[derive(Clone, Copy, Debug, PartialEq, Eq, Structural)]
pub enum DateError {
    /// The calendar has no such day: the month is not one of 1..=12, or the
    /// day is not one of that month.
    InvalidDate,
    /// The day lies so far from 1970 that its day number does not fit in an
    /// `i32`.
    Overflow,
}

/// A date together with the pattern to write it in. Its view is the text.
#[derive(Clone, Copy)]
pub struct FormattedDate<'a> {
    date: NaiveDate,
    pattern: &'a str,
}

impl View for NaiveDate {
    type V = int;

    closed spec fn view(&self) -> int {
        self.days_since_epoch as int
    }
}

impl View for Duration {
    type V = int;

    closed spec fn view(&self) -> int {
        self.days as int
    }
}

impl<'a> View for FormattedDate<'a> {
    type V = Seq<char>;

    closed spec fn view(&self) -> Seq<char> {
        date_text(self.date@, self.pattern@)
    }
}

/// The text that `pattern` gives for the date with day number `n`.
pub open spec fn date_text(n: int, pattern: Seq<char>) -> Seq<char> {
    format_spec(year_of_day(n), month_of_day(n), day_of_day(n), pattern)
}

/// The number of the weekday of day `n`, from 0 for Monday to 6 for Sunday.
/// Day 0 was a Thursday.
pub open spec fn weekday_number(n: int) -> int {
    (n + 3) % 7
}

/// Whether `date` is the date with day number `n`, or `None` where `n` is not
/// the day number of a date that a `NaiveDate` can hold.
pub open spec fn is_date_at(date: Option<NaiveDate>, n: int) -> bool {
    &&& date is Some <==> i32::MIN <= n <= i32::MAX
    &&& date is Some ==> date.unwrap()@ == n
}

/// The day number that lies `seconds` whole seconds after 1970-01-01 00:00,
/// or before it where `before_epoch` holds: a moment before the epoch belongs
/// to the day that is running then.
pub open spec fn unix_day_spec(seconds: int, before_epoch: bool) -> int {
    if before_epoch {
        -((seconds + 86_399) / 86_400)
    } else {
        seconds / 86_400
    }
}

/// The day number of a date fits in an `i32`.
pub proof fn lemma_day_number_range(date: NaiveDate)
    ensures
        i32::MIN <= date@ <= i32::MAX,
{
}

/// Dates with the same day number are the same date.
pub proof fn lemma_day_number_injective(a: NaiveDate, b: NaiveDate)
    ensures
        a@ == b@ <==> a == b,
{
}

/// Consecutive days fall on consecutive weekdays, and Monday follows Sunday.
pub proof fn lemma_weekday_cycle(n: int)
    ensures
        0 <= weekday_number(n) <= 6,
        weekday_number(n + 1) == (weekday_number(n) + 1) % 7,
        weekday_number(n + 1) == if weekday_number(n) == 6 {
            0
        } else {
            weekday_number(n) + 1
        },
{
}

/// The length of a span fits in an `i64`.
pub proof fn lemma_span_range(span: Duration)
    ensures
        i64::MIN <= span@ <= i64::MAX,
{
}

impl Weekday {
    /// The number of the day, from 0 for Monday to 6 for Sunday.
    pub open spec fn number(self) -> int {
        match self {
            Weekday::Monday => 0,
            Weekday::Tuesday => 1,
            Weekday::Wednesday => 2,
            Weekday::Thursday => 3,
            Weekday::Friday => 4,
            Weekday::Saturday => 5,
            Weekday::Sunday => 6,
        }
    }

    /// The number of days since the Monday of the same week.
    pub fn num_days_from_monday(self) -> (days: u8)
        ensures
            days == self.number(),
    {
        match self {
            Weekday::Monday => 0,
            Weekday::Tuesday => 1,
            Weekday::Wednesday => 2,
            Weekday::Thursday => 3,
            Weekday::Friday => 4,
            Weekday::Saturday => 5,
            Weekday::Sunday => 6,
        }
    }
}

impl Duration {
    /// A span of `days` days.
    pub fn days(days: i64) -> (span: Self)
        ensures
            span@ == days,
    {
        Self { days }
    }

    /// The length of the span in days.
    pub fn num_days(self) -> (days: i64)
        ensures
            days == self@,
    {
        self.days
    }
}

/// A moment on the system clock. Nothing is known of its value.
#[verifier::external_type_specification]
#[verifier::external_body]
pub struct ExSystemTime(std::time::SystemTime);

/// The error of `SystemTime::duration_since`. Nothing is known of its value.
#[verifier::external_type_specification]
#[verifier::external_body]
pub struct ExSystemTimeError(std::time::SystemTimeError);

/// `Duration::as_secs` gives the whole seconds of a length of time. Nothing is
/// claimed of the number.
pub assume_specification[ core::time::Duration::as_secs ](
    elapsed: &core::time::Duration,
) -> (seconds: u64)
;

/// `SystemTimeError::duration` gives how far the second moment lay after the
/// first. Nothing is claimed of the length.
pub assume_specification[ std::time::SystemTimeError::duration ](
    error: &SystemTimeError,
) -> (elapsed: core::time::Duration)
;

/// The time between `time` and `UNIX_EPOCH`, as `SystemTime::duration_since`
/// measures it: `Ok` where `time` is not before the epoch, else the error that
/// holds how far before it lies.
#[verifier::external_body]
fn since_unix_epoch(time: SystemTime) -> (elapsed: Result<core::time::Duration, SystemTimeError>) {
    time.duration_since(UNIX_EPOCH)
}

impl NaiveDate {
    /// The date `(year, month, day)`. It is refused as `InvalidDate` where the
    /// calendar has no such day, and as `Overflow` where it has one whose day
    /// number does not fit in an `i32`.
    pub fn from_ymd(year: i32, month: u32, day: u32) -> (date: Result<Self, DateError>)
        ensures
            date is Ok <==> valid_ymd(year as int, month as int, day as int) && i32::MIN
                <= days_from_civil_spec(year as int, month as int, day as int) <= i32::MAX,
            date == Err::<Self, DateError>(DateError::InvalidDate) <==> !valid_ymd(
                year as int,
                month as int,
                day as int,
            ),
            date == Err::<Self, DateError>(DateError::Overflow) <==> valid_ymd(
                year as int,
                month as int,
                day as int,
            ) && !(i32::MIN <= days_from_civil_spec(year as int, month as int, day as int)
                <= i32::MAX),
            date is Ok ==> date.unwrap()@ == days_from_civil_spec(
                year as int,
                month as int,
                day as int,
            ),
    {
        if month == 0 || month > 12 {
            return Err(DateError::InvalidDate);
        }
        if day == 0 || day > days_in_month(year, month) {
            return Err(DateError::InvalidDate);
        }
        match days_from_civil(year, month, day) {
            Some(days_since_epoch) => Ok(Self { days_since_epoch }),
            None => Err(DateError::Overflow),
        }
    }

    /// The date `(year, month, day)`, or `None` where the calendar has no such
    /// day or its day number does not fit in an `i32`.
    pub fn from_ymd_opt(year: i32, month: u32, day: u32) -> (date: Option<Self>)
        ensures
            date is Some <==> valid_ymd(year as int, month as int, day as int) && i32::MIN
                <= days_from_civil_spec(year as int, month as int, day as int) <= i32::MAX,
            date is Some ==> date.unwrap()@ == days_from_civil_spec(
                year as int,
                month as int,
                day as int,
            ),
    {
        match Self::from_ymd(year, month, day) {
            Ok(date) => Some(date),
            Err(_) => None,
        }
    }

    /// The date in the same month and year on day `day`, or `None` where the
    /// month has no such day or the date's day number does not fit in an
    /// `i32`.
    pub fn with_day(self, day: u32) -> (date: Option<Self>)
        ensures
            date is Some <==> valid_ymd(year_of_day(self@), month_of_day(self@), day as int)
                && i32::MIN <= self@ - day_of_day(self@) + day <= i32::MAX,
            date is Some ==> date.unwrap()@ == self@ - day_of_day(self@) + day,
    {
        proof {
            lemma_civil_of_day(self@);
        }
        Self::from_ymd_opt(self.year(), self.month(), day)
    }

    /// The year of the date.
    pub fn year(self) -> (year: i32)
        ensures
            year == year_of_day(self@),
    {
        self.components().0
    }

    /// The month of the date, from 1 for January to 12 for December.
    pub fn month(self) -> (month: u32)
        ensures
            month == month_of_day(self@),
            1 <= month <= 12,
    {
        self.components().1
    }

    /// The day of the month, counted from 1.
    pub fn day(self) -> (day: u32)
        ensures
            day == day_of_day(self@),
            1 <= day <= 31,
    {
        self.components().2
    }

    /// The day of the week on which the date falls.
    pub fn weekday(self) -> (weekday: Weekday)
        ensures
            weekday.number() == weekday_number(self@),
    {
        let shifted: i64 = self.days_since_epoch as i64 + 3;
        let idx: i64 = shifted.checked_rem_euclid(7).unwrap();
        if idx == 0 {
            Weekday::Monday
        } else if idx == 1 {
            Weekday::Tuesday
        } else if idx == 2 {
            Weekday::Wednesday
        } else if idx == 3 {
            Weekday::Thursday
        } else if idx == 4 {
            Weekday::Friday
        } else if idx == 5 {
            Weekday::Saturday
        } else {
            Weekday::Sunday
        }
    }

    /// The date, ready to be written in `pattern`.
    pub fn format<'a>(self, pattern: &'a str) -> (formatted: FormattedDate<'a>)
        ensures
            formatted@ == date_text(self@, pattern@),
    {
        FormattedDate { date: self, pattern }
    }

    /// The date of the day that is running at `time`, in UTC, or `None` where
    /// its day number does not fit in an `i32`. The clock decides how far
    /// `time` lies from 1970-01-01 00:00; the date is then the one that
    /// `from_unix_seconds` gives for that distance.
    pub fn from_system_time(time: SystemTime) -> (date: Option<Self>)
        ensures
            exists|seconds: u64, before_epoch: bool|
                is_date_at(date, #[trigger] unix_day_spec(seconds as int, before_epoch)),
    {
        match since_unix_epoch(time) {
            Ok(elapsed) => {
                let seconds = elapsed.as_secs();
                assert(unix_day_spec(seconds as int, false) == seconds as int / 86_400);
                Self::from_unix_seconds(seconds, false)
            },
            Err(err) => {
                let seconds = err.duration().as_secs();
                assert(unix_day_spec(seconds as int, true) == -((seconds as int + 86_399)
                    / 86_400));
                Self::from_unix_seconds(seconds, true)
            },
        }
    }

    /// The date of the day that lies `seconds` seconds after 1970-01-01 00:00,
    /// or before it where `before_epoch` holds; `None` where its day number
    /// does not fit in an `i32`.
    pub fn from_unix_seconds(seconds: u64, before_epoch: bool) -> (date: Option<Self>)
        ensures
            is_date_at(date, unix_day_spec(seconds as int, before_epoch)),
    {
        let whole: u64 = seconds / 86_400;
        if before_epoch {
            let days: u64 = if seconds % 86_400 == 0 {
                whole
            } else {
                whole + 1
            };
            Self::from_days_since_epoch(-(days as i64))
        } else {
            Self::from_days_since_epoch(whole as i64)
        }
    }

    /// The date with day number `days`, or `None` where `days` does not fit
    /// in an `i32`.
    pub fn from_days_since_epoch(days: i64) -> (date: Option<Self>)
        ensures
            is_date_at(date, days as int),
    {
        if days < i32::MIN as i64 || days > i32::MAX as i64 {
            None
        } else {
            Some(Self { days_since_epoch: days as i32 })
        }
    }

    /// The date as `(year, month, day)`.
    pub fn components(self) -> (date: (i32, u32, u32))
        ensures
            date.0 == year_of_day(self@),
            date.1 == month_of_day(self@),
            date.2 == day_of_day(self@),
            valid_ymd(date.0 as int, date.1 as int, date.2 as int),
            days_from_civil_spec(date.0 as int, date.1 as int, date.2 as int) == self@,
    {
        civil_from_days(self.days_since_epoch)
    }

    /// The text that `pattern` gives for the date.
    pub fn format_internal(self, pattern: &str) -> (text: String)
        ensures
            text@ == date_text(self@, pattern@),
    {
        let (year, month, day) = self.components();
        format_ymd(year, month, day, pattern)
    }
}

impl<'a> FormattedDate<'a> {
    /// The text of the date in its pattern.
    pub fn to_string(&self) -> (text: String)
        ensures
            text@ == self@,
    {
        self.date.format_internal(self.pattern)
    }
}

impl PartialOrd for NaiveDate {
    /// Dates are ordered as their day numbers are.
    fn partial_cmp(&self, other: &NaiveDate) -> (order: Option<Ordering>) {
        if self.days_since_epoch < other.days_since_epoch {
            Some(Ordering::Less)
        } else if self.days_since_epoch > other.days_since_epoch {
            Some(Ordering::Greater)
        } else {
            Some(Ordering::Equal)
        }
    }
}

impl PartialOrdSpecImpl for NaiveDate {
    open spec fn obeys_partial_cmp_spec() -> bool {
        true
    }

    open spec fn partial_cmp_spec(&self, other: &NaiveDate) -> Option<Ordering> {
        if self@ < other@ {
            Some(Ordering::Less)
        } else if self@ > other@ {
            Some(Ordering::Greater)
        } else {
            Some(Ordering::Equal)
        }
    }
}

impl AddSpecImpl<Duration> for NaiveDate {
    open spec fn obeys_add_spec() -> bool {
        true
    }

    open spec fn add_req(self, rhs: Duration) -> bool {
        i32::MIN <= self@ + rhs@ <= i32::MAX
    }

    closed spec fn add_spec(self, rhs: Duration) -> NaiveDate {
        NaiveDate { days_since_epoch: (self.days_since_epoch + rhs.days) as i32 }
    }
}

impl Add<Duration> for NaiveDate {
    type Output = NaiveDate;

    /// The date `rhs` days after this one. The sum must be a date that a
    /// `NaiveDate` can hold.
    fn add(self, rhs: Duration) -> (sum: NaiveDate)
        ensures
            sum@ == self@ + rhs@,
    {
        let total: i64 = self.days_since_epoch as i64 + rhs.days;
        NaiveDate { days_since_epoch: total as i32 }
    }
}

impl AddAssign<Duration> for NaiveDate {
    /// Moves the date `rhs` days on.
    fn add_assign(&mut self, rhs: Duration)
        requires
            i32::MIN <= old(self)@ + rhs@ <= i32::MAX,
        ensures
            final(self)@ == old(self)@ + rhs@,
    {
        *self = *self + rhs;
    }
}

impl SubSpecImpl<Duration> for NaiveDate {
    open spec fn obeys_sub_spec() -> bool {
        true
    }

    open spec fn sub_req(self, rhs: Duration) -> bool {
        i32::MIN <= self@ - rhs@ <= i32::MAX
    }

    closed spec fn sub_spec(self, rhs: Duration) -> NaiveDate {
        NaiveDate { days_since_epoch: (self.days_since_epoch - rhs.days) as i32 }
    }
}

impl Sub<Duration> for NaiveDate {
    type Output = NaiveDate;

    /// The date `rhs` days before this one. The difference must be a date
    /// that a `NaiveDate` can hold.
    fn sub(self, rhs: Duration) -> (difference: NaiveDate)
        ensures
            difference@ == self@ - rhs@,
    {
        let total: i64 = self.days_since_epoch as i64 - rhs.days;
        NaiveDate { days_since_epoch: total as i32 }
    }
}

impl SubAssign<Duration> for NaiveDate {
    /// Moves the date `rhs` days back.
    fn sub_assign(&mut self, rhs: Duration)
        requires
            i32::MIN <= old(self)@ - rhs@ <= i32::MAX,
        ensures
            final(self)@ == old(self)@ - rhs@,
    {
        *self = *self - rhs;
    }
}

impl SubSpecImpl<NaiveDate> for NaiveDate {
    open spec fn obeys_sub_spec() -> bool {
        true
    }

    open spec fn sub_req(self, rhs: NaiveDate) -> bool {
        true
    }

    closed spec fn sub_spec(self, rhs: NaiveDate) -> Duration {
        Duration { days: (self.days_since_epoch - rhs.days_since_epoch) as i64 }
    }
}

impl Sub<NaiveDate> for NaiveDate {
    type Output = Duration;

    /// The span from `rhs` to this date.
    fn sub(self, rhs: NaiveDate) -> (span: Duration)
        ensures
            span@ == self@ - rhs@,
    {
        Duration::days(self.days_since_epoch as i64 - rhs.days_since_epoch as i64)
    }
}

} // verus!
