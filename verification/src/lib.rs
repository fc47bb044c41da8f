//! A calendar date engine and the selection state of date pickers.
//!
//! `civil` defines the proleptic Gregorian calendar over day numbers and
//! converts between dates and day numbers. `time` holds the date, span and
//! weekday types, `format` writes dates in a pattern, and `month` moves by
//! months and lays out the grid of a month view. `range` and `picker` hold a
//! range of days and the state machine by which clicks select one;
//! `calendar` is the month view with a single selected day. `utils` has
//! helpers for class and attribute values.

pub mod calendar;
pub mod civil;
pub mod format;
pub mod month;
pub mod picker;
pub mod range;
pub mod time;
pub mod utils;
