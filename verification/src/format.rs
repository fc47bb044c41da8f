//! Date patterns: a small substitution language in the style of `strftime`.
//!
//! A pattern is copied to the output character by character, except that `%`
//! and the character after it form a directive: `%Y` is the year, `%m` the
//! month and `%d` the day as zero-padded numbers, `%B` and `%b` the full and
//! the short month name, and `%%` a percent sign. Any other character after
//! `%` is copied together with the `%`. A `%` that ends the pattern is dropped.

use vstd::prelude::*;
use vstd::std_specs::iter::IteratorSpec;

verus! {

/// The character of a decimal digit; `'0'` for a number that is none.
pub open spec fn digit_char(digit: int) -> char {
    if digit == 1 {
        '1'
    } else if digit == 2 {
        '2'
    } else if digit == 3 {
        '3'
    } else if digit == 4 {
        '4'
    } else if digit == 5 {
        '5'
    } else if digit == 6 {
        '6'
    } else if digit == 7 {
        '7'
    } else if digit == 8 {
        '8'
    } else if digit == 9 {
        '9'
    } else {
        '0'
    }
}

/// The decimal digits of a natural number, most significant first, without
/// leading zeros.
pub open spec fn decimal_digits(value: nat) -> Seq<char>
    decreases value,
{
    if value < 10 {
        seq![digit_char(value as int)]
    } else {
        decimal_digits(value / 10).push(digit_char((value % 10) as int))
    }
}

/// A number in decimal, filled with zeros to at least `width` characters. A
/// negative number starts with `-`, which counts towards the width, and the
/// zeros follow the sign.
pub open spec fn zero_padded_spec(value: int, width: nat) -> Seq<char> {
    let digits = decimal_digits(
        (if value < 0 {
            -value
        } else {
            value
        }) as nat,
    );
    let sign = if value < 0 {
        seq!['-']
    } else {
        Seq::<char>::empty()
    };
    let fill = if sign.len() + digits.len() < width {
        width - sign.len() - digits.len()
    } else {
        0
    };
    sign + Seq::new(fill as nat, |i: int| '0') + digits
}

/// The English name of a month, and `"Unknown"` for a number outside 1..=12.
pub open spec fn full_month_spec(month: int) -> Seq<char> {
    if month == 1 {
        "January"@
    } else if month == 2 {
        "February"@
    } else if month == 3 {
        "March"@
    } else if month == 4 {
        "April"@
    } else if month == 5 {
        "May"@
    } else if month == 6 {
        "June"@
    } else if month == 7 {
        "July"@
    } else if month == 8 {
        "August"@
    } else if month == 9 {
        "September"@
    } else if month == 10 {
        "October"@
    } else if month == 11 {
        "November"@
    } else if month == 12 {
        "December"@
    } else {
        "Unknown"@
    }
}

/// The three-letter name of a month, and `"Unk"` for a number outside 1..=12.
pub open spec fn short_month_spec(month: int) -> Seq<char> {
    if month == 1 {
        "Jan"@
    } else if month == 2 {
        "Feb"@
    } else if month == 3 {
        "Mar"@
    } else if month == 4 {
        "Apr"@
    } else if month == 5 {
        "May"@
    } else if month == 6 {
        "Jun"@
    } else if month == 7 {
        "Jul"@
    } else if month == 8 {
        "Aug"@
    } else if month == 9 {
        "Sep"@
    } else if month == 10 {
        "Oct"@
    } else if month == 11 {
        "Nov"@
    } else if month == 12 {
        "Dec"@
    } else {
        "Unk"@
    }
}

/// What the directive `%` followed by `directive` stands for.
pub open spec fn directive_spec(year: int, month: int, day: int, directive: char) -> Seq<char> {
    if directive == 'Y' {
        zero_padded_spec(year, 4)
    } else if directive == 'm' {
        zero_padded_spec(month, 2)
    } else if directive == 'd' {
        zero_padded_spec(day, 2)
    } else if directive == 'B' {
        full_month_spec(month)
    } else if directive == 'b' {
        short_month_spec(month)
    } else if directive == '%' {
        seq!['%']
    } else {
        seq!['%', directive]
    }
}

/// The text that `pattern` gives for the date `(year, month, day)`.
pub open spec fn format_spec(year: int, month: int, day: int, pattern: Seq<char>) -> Seq<char>
    decreases pattern.len(),
{
    if pattern.len() == 0 {
        Seq::empty()
    } else if pattern[0] != '%' {
        seq![pattern[0]] + format_spec(year, month, day, pattern.skip(1))
    } else if pattern.len() == 1 {
        Seq::empty()
    } else {
        directive_spec(year, month, day, pattern[1]) + format_spec(
            year,
            month,
            day,
            pattern.skip(2),
        )
    }
}

/// `String::push` appends one character to the text.
pub assume_specification[ String::push ](text: &mut String, ch: char)
    ensures
        final(text)@ == old(text)@.push(ch),
;

/// Formats `value` with `format!` under the flag `0` and the given width: the
/// decimal digits, behind a `-` where the value is negative, with zeros
/// between sign and digits until the text is `width` characters long.
#[verifier::external_body]
fn zero_padded(value: i64, width: usize) -> (text: String)
    requires
        width <= 32,
    ensures
        text@ == zero_padded_spec(value as int, width as nat),
{
    format!("{:01$}", value, width)
}

/// The English name of a month.
pub fn full_month(month: u32) -> (name: &'static str)
    ensures
        name@ == full_month_spec(month as int),
{
    match month {
        1 => "January",
        2 => "February",
        3 => "March",
        4 => "April",
        5 => "May",
        6 => "June",
        7 => "July",
        8 => "August",
        9 => "September",
        10 => "October",
        11 => "November",
        12 => "December",
        _ => "Unknown",
    }
}

/// The three-letter name of a month.
pub fn short_month(month: u32) -> (name: &'static str)
    ensures
        name@ == short_month_spec(month as int),
{
    match month {
        1 => "Jan",
        2 => "Feb",
        3 => "Mar",
        4 => "Apr",
        5 => "May",
        6 => "Jun",
        7 => "Jul",
        8 => "Aug",
        9 => "Sep",
        10 => "Oct",
        11 => "Nov",
        12 => "Dec",
        _ => "Unk",
    }
}

/// Appends to `output` what the directive `%` followed by `directive` stands
/// for.
fn push_directive(output: &mut String, year: i32, month: u32, day: u32, directive: char)
    ensures
        final(output)@ == old(output)@ + directive_spec(
            year as int,
            month as int,
            day as int,
            directive,
        ),
{
    match directive {
        'Y' => {
            output.append(zero_padded(year as i64, 4).as_str());
        },
        'm' => {
            output.append(zero_padded(month as i64, 2).as_str());
        },
        'd' => {
            output.append(zero_padded(day as i64, 2).as_str());
        },
        'B' => {
            output.append(full_month(month));
        },
        'b' => {
            output.append(short_month(month));
        },
        '%' => {
            output.push('%');
            assert(seq!['%'] =~= Seq::<char>::empty().push('%'));
        },
        other => {
            output.push('%');
            output.push(other);
            assert(seq!['%', other] =~= Seq::<char>::empty().push('%').push(other));
        },
    }
}

/// The text that `pattern` gives for the date `(year, month, day)`.
pub fn format_ymd(year: i32, month: u32, day: u32, pattern: &str) -> (text: String)
    ensures
        text@ == format_spec(year as int, month as int, day as int, pattern@),
{
    let mut output = String::new();
    let mut chars = pattern.chars();
    loop
        invariant
            chars.obeys_prophetic_iter_laws(),
            chars.decrease() is Some,
            output@ + format_spec(year as int, month as int, day as int, chars.remaining())
                == format_spec(year as int, month as int, day as int, pattern@),
        ensures
            output@ == format_spec(year as int, month as int, day as int, pattern@),
        decreases chars.decrease()->0,
    {
        let ghost rest = chars.remaining();
        match chars.next() {
            None => {
                break ;
            },
            Some(ch) => {
                if ch == '%' {
                    match chars.next() {
                        None => {
                            break ;
                        },
                        Some(directive) => {
                            push_directive(&mut output, year, month, day, directive);
                            assert(rest.skip(2) == chars.remaining());
                        },
                    }
                } else {
                    output.push(ch);
                    assert(rest.skip(1) == chars.remaining());
                }
            },
        }
    }
    output
}

} // verus!
