//! Day-and-month dates written as `dd.mm`.
use chrono::Datelike;
use vstd::prelude::*;

verus! {

/// The year that every birthday is checked against: not a leap year, so a
/// 29th of February is never a valid birthday.
pub const REFERENCE_YEAR: i32 = 1970;

pub open spec fn is_ascii_digit(c: char) -> bool {
    '0' <= c && c <= '9'
}

pub open spec fn digit_value(c: char) -> int {
    c as int - '0' as int
}

/// A numeric field: one or two decimal digits.
pub open spec fn is_field(s: Seq<char>) -> bool {
    &&& 1 <= s.len() <= 2
    &&& forall|i: int| 0 <= i < s.len() ==> is_ascii_digit(#[trigger] s[i])
}

pub open spec fn field_value(s: Seq<char>) -> int {
    if s.len() == 1 {
        digit_value(s[0])
    } else {
        10 * digit_value(s[0]) + digit_value(s[1])
    }
}

/// The day and the month written in `s`, when `s` is a day field, a `.`, and
/// a month field, and nothing else.
pub open spec fn token_fields(s: Seq<char>) -> Option<(int, int)> {
    if s.len() >= 2 && s[1] == '.' {
        let d = s.subrange(0, 1);
        let m = s.subrange(2, s.len() as int);
        if is_field(m) && is_ascii_digit(s[0]) {
            Some((field_value(d), field_value(m)))
        } else {
            None
        }
    } else if s.len() >= 3 && s[2] == '.' {
        let d = s.subrange(0, 2);
        let m = s.subrange(3, s.len() as int);
        if is_field(d) && is_field(m) {
            Some((field_value(d), field_value(m)))
        } else {
            None
        }
    } else {
        None
    }
}

/// Days in `month` of a year that is not a leap year.
pub open spec fn days_in_month(month: int) -> int {
    if month == 2 {
        28
    } else if month == 4 || month == 6 || month == 9 || month == 11 {
        30
    } else {
        31
    }
}

/// `day`.`month` exists in a year that is not a leap year.
pub open spec fn is_valid_day_month(day: int, month: int) -> bool {
    1 <= month <= 12 && 1 <= day <= days_in_month(month)
}

/// What `parse_date` yields for the text `s`.
pub open spec fn parsed_date(s: Seq<char>) -> Option<(int, int)> {
    match token_fields(s) {
        Some((d, m)) => if is_valid_day_month(d, m) {
            Some((d, m))
        } else {
            None
        },
        None => None,
    }
}

/// A valid day of a month; see `is_valid`.
#[derive(Clone, Copy, Debug, PartialEq, Eq, Structural)]
pub struct BirthDate {
    pub day: u32,
    pub month: u32,
}

impl BirthDate {
    pub open spec fn is_valid(&self) -> bool {
        is_valid_day_month(self.day as int, self.month as int)
    }
}

/// The argument is not a day and month that exists in the calendar.
#[derive(Clone, Copy, Debug, PartialEq, Eq, Structural)]
pub struct InvalidDateError;

/// Relies on chrono's `NaiveDate::from_ymd_opt`: in a year within chrono's
/// range it gives a date exactly when the month is 1 to 12 and the day exists
/// in that month of that year, and the date keeps that day and month.
#[verifier::external_body]
fn calendar_day_month(day: u32, month: u32) -> (r: Option<(u32, u32)>)
    ensures
        r == (if is_valid_day_month(day as int, month as int) {
            Some((day, month))
        } else {
            None
        }),
{
    match chrono::NaiveDate::from_ymd_opt(REFERENCE_YEAR, month, day) {
        Some(d) => Some((d.day(), d.month())),
        None => None,
    }
}

/// The value of the field `s[from..to]`, when it is one.
fn field_at(s: &str, from: usize, to: usize) -> (r: Option<u32>)
    requires
        from <= to <= s@.len(),
    ensures
        match r {
            Some(v) => is_field(s@.subrange(from as int, to as int)) && v as int == field_value(
                s@.subrange(from as int, to as int),
            ),
            None => !is_field(s@.subrange(from as int, to as int)),
        },
{
    let ghost f = s@.subrange(from as int, to as int);
    if to - from == 1 {
        let c = s.get_char(from);
        if '0' <= c && c <= '9' {
            assert(f[0] == c);
            Some((c as u32) - ('0' as u32))
        } else {
            assert(f[0] == c);
            None
        }
    } else if to - from == 2 {
        let c0 = s.get_char(from);
        let c1 = s.get_char(from + 1);
        assert(f[0] == c0 && f[1] == c1);
        if '0' <= c0 && c0 <= '9' && '0' <= c1 && c1 <= '9' {
            assert(forall|i: int| 0 <= i < f.len() ==> is_ascii_digit(#[trigger] f[i]));
            Some(10 * ((c0 as u32) - ('0' as u32)) + ((c1 as u32) - ('0' as u32)))
        } else {
            assert(!is_ascii_digit(f[0]) || !is_ascii_digit(f[1]));
            None
        }
    } else {
        None
    }
}

/// Reads a `dd.mm` token: a day of one or two digits, a `.`, and a month of
/// one or two digits, which together name a date of a year that is not a
/// leap year.
pub fn parse_date(raw: &str) -> (r: Result<BirthDate, InvalidDateError>)
    ensures
        match r {
            Ok(b) => b.is_valid() && parsed_date(raw@) == Some((b.day as int, b.month as int)),
            Err(_) => parsed_date(raw@) is None,
        },
{
    let n = raw.unicode_len();
    if n < 3 || n > 5 {
        return Err(InvalidDateError);
    }
    let sep: usize = if raw.get_char(1) == '.' {
        1
    } else if raw.get_char(2) == '.' {
        2
    } else {
        return Err(InvalidDateError);
    };
    let day = match field_at(raw, 0, sep) {
        Some(d) => d,
        None => return Err(InvalidDateError),
    };
    let month = match field_at(raw, sep + 1, n) {
        Some(m) => m,
        None => return Err(InvalidDateError),
    };
    match calendar_day_month(day, month) {
        Some((d, m)) => Ok(BirthDate { day: d, month: m }),
        None => Err(InvalidDateError),
    }
}

/// The English name of `month`.
pub open spec fn month_name(month: int) -> Seq<char> {
    if month == 1 {
        "January"@
    } else if month == 2 {
        "February"@
    } else if month == 3 {
        "March"@
    } else if month == 4 {
        "April"@
    } else if month == 5 {
        "May"@
    } else if month == 6 {
        "June"@
    } else if month == 7 {
        "July"@
    } else if month == 8 {
        "August"@
    } else if month == 9 {
        "September"@
    } else if month == 10 {
        "October"@
    } else if month == 11 {
        "November"@
    } else {
        "December"@
    }
}

pub open spec fn digit_char(d: int) -> char {
    (d + '0' as int) as char
}

/// `day` as two decimal digits, with a leading zero below ten.
pub open spec fn two_digits(day: int) -> Seq<char> {
    seq![digit_char(day / 10), digit_char(day % 10)]
}

/// How a birthday is shown: the month's name, a space, and the day in two
/// digits (`July 05`).
pub open spec fn month_day_text(day: int, month: int) -> Seq<char> {
    month_name(month) + seq![' '] + two_digits(day)
}

/// Relies on chrono's `%B %d` formatting of a `NaiveDate` with the default
/// locale: the month's full English name, a space, and the day of the month
/// zero-padded to two digits.
#[verifier::external_body]
fn format_month_day(day: u32, month: u32) -> (r: String)
    requires
        is_valid_day_month(day as int, month as int),
    ensures
        r@ == month_day_text(day as int, month as int),
{
    match chrono::NaiveDate::from_ymd_opt(REFERENCE_YEAR, month, day) {
        Some(d) => d.format("%B %d").to_string(),
        None => String::new(),
    }
}

impl BirthDate {
    /// The date as a reply shows it.
    pub fn to_text(&self) -> (r: String)
        requires
            self.is_valid(),
        ensures
            r@ == month_day_text(self.day as int, self.month as int),
    {
        format_month_day(self.day, self.month)
    }
}

} // verus!
