//! A plain calendar date and its canonical `YYYY-MM-DD` text form.

use vstd::prelude::*;

verus! {

/// True when `y` is a leap year in the Gregorian calendar.
pub open spec fn is_leap_year(y: int) -> bool {
    (y % 4 == 0 && y % 100 != 0) || y % 400 == 0
}

/// Number of days in month `m` of year `y`.
pub open spec fn days_in_month(y: int, m: int) -> int {
    if m == 2 {
        if is_leap_year(y) {
            29
        } else {
            28
        }
    } else if m == 4 || m == 6 || m == 9 || m == 11 {
        30
    } else {
        31
    }
}

/// True when year `y`, month `m`, day `d` name a real calendar date that the
/// four-digit year form can write.
pub open spec fn valid_date(y: int, m: int, d: int) -> bool {
    &&& 0 <= y <= 9999
    &&& 1 <= m <= 12
    &&& 1 <= d <= days_in_month(y, m)
}

/// A calendar date, kept as plain year, month and day numbers.
#[derive(Clone, Copy, Debug, PartialEq, Eq, Structural)]
pub struct Date {
    pub year: u32,
    pub month: u32,
    pub day: u32,
}

impl Date {
    /// True when the three fields name a real calendar date.
    pub open spec fn is_valid(self) -> bool {
        valid_date(self.year as int, self.month as int, self.day as int)
    }

    /// Builds a date after checking that the fields name a real calendar
    /// date; returns `None` otherwise.
    pub fn new(year: u32, month: u32, day: u32) -> (r: Option<Date>)
        ensures
            valid_date(year as int, month as int, day as int) ==> r == Some(
                Date { year, month, day },
            ),
            !valid_date(year as int, month as int, day as int) ==> r is None,
    {
        if 1 <= month && month <= 12 && year <= 9999 && 1 <= day && day
            <= days_in_month_exec(year, month) {
            Some(Date { year, month, day })
        } else {
            None
        }
    }

    /// The canonical `YYYY-MM-DD` text of this date, with zero padding.
    pub open spec fn spec_text(self) -> Seq<char> {
        pad4(self.year as int) + seq!['-'] + pad2(self.month as int) + seq!['-'] + pad2(
            self.day as int,
        )
    }

    /// Writes this date as canonical `YYYY-MM-DD` text.
    pub fn to_text(&self) -> (s: String)
        requires
            self.is_valid(),
        ensures
            s@ == self.spec_text(),
    {
        let mut s = String::new();
        push_pad4(&mut s, self.year);
        crate::text::push_char(&mut s, '-');
        push_pad2(&mut s, self.month);
        crate::text::push_char(&mut s, '-');
        push_pad2(&mut s, self.day);
        proof {
            assert(s@ =~= self.spec_text());
        }
        s
    }
}

/// Relies on `chrono::Local::now`, `DateTime::date_naive` and the
/// `chrono::Datelike` accessors: the calendar date now, as year, month and
/// day numbers. chrono keeps the three a real calendar date, so the month
/// is in range and the day fits the month, whatever the year.
#[verifier::external_body]
fn now_ymd() -> (r: (i32, u32, u32))
    ensures
        1 <= r.1 <= 12,
        1 <= r.2 <= days_in_month(r.0 as int, r.1 as int),
{
    let now = chrono::Local::now().date_naive();
    (chrono::Datelike::year(&now), chrono::Datelike::month(&now), chrono::Datelike::day(&now))
}

impl Date {
    /// Today's date, read from the system clock. A year outside the four
    /// digit range falls back to a leap year, keeping the month and day.
    pub fn today() -> (r: Date)
        ensures
            r.is_valid(),
    {
        let (y, m, d) = now_ymd();
        if 0 <= y && y <= 9999 {
            Date { year: y as u32, month: m, day: d }
        } else {
            Date { year: 2000, month: m, day: d }
        }
    }
}

/// Number of days in month `m` of year `y`, as executable code.
pub fn days_in_month_exec(y: u32, m: u32) -> (r: u32)
    ensures
        r == days_in_month(y as int, m as int),
{
    if m == 2 {
        if (y % 4 == 0 && y % 100 != 0) || y % 400 == 0 {
            29
        } else {
            28
        }
    } else if m == 4 || m == 6 || m == 9 || m == 11 {
        30
    } else {
        31
    }
}

/// The character for the decimal digit `v`.
pub open spec fn digit_char(v: int) -> char {
    if v == 0 {
        '0'
    } else if v == 1 {
        '1'
    } else if v == 2 {
        '2'
    } else if v == 3 {
        '3'
    } else if v == 4 {
        '4'
    } else if v == 5 {
        '5'
    } else if v == 6 {
        '6'
    } else if v == 7 {
        '7'
    } else if v == 8 {
        '8'
    } else {
        '9'
    }
}

/// `n` written as exactly two decimal digits.
pub open spec fn pad2(n: int) -> Seq<char> {
    seq![digit_char(n / 10 % 10), digit_char(n % 10)]
}

/// `n` written as exactly four decimal digits.
pub open spec fn pad4(n: int) -> Seq<char> {
    seq![
        digit_char(n / 1000 % 10),
        digit_char(n / 100 % 10),
        digit_char(n / 10 % 10),
        digit_char(n % 10),
    ]
}

/// The character for the decimal digit `v`, as executable code.
fn digit_char_exec(v: u32) -> (c: char)
    requires
        v < 10,
    ensures
        c == digit_char(v as int),
{
    match v {
        0 => '0',
        1 => '1',
        2 => '2',
        3 => '3',
        4 => '4',
        5 => '5',
        6 => '6',
        7 => '7',
        8 => '8',
        _ => '9',
    }
}

/// Appends `n` to `s` as exactly two decimal digits.
fn push_pad2(s: &mut String, n: u32)
    ensures
        final(s)@ == old(s)@ + pad2(n as int),
{
    crate::text::push_char(s, digit_char_exec(n / 10 % 10));
    crate::text::push_char(s, digit_char_exec(n % 10));
    proof {
        assert(s@ =~= old(s)@ + pad2(n as int));
    }
}

/// Appends `n` to `s` as exactly four decimal digits.
fn push_pad4(s: &mut String, n: u32)
    ensures
        final(s)@ == old(s)@ + pad4(n as int),
{
    crate::text::push_char(s, digit_char_exec(n / 1000 % 10));
    crate::text::push_char(s, digit_char_exec(n / 100 % 10));
    crate::text::push_char(s, digit_char_exec(n / 10 % 10));
    crate::text::push_char(s, digit_char_exec(n % 10));
    proof {
        assert(s@ =~= old(s)@ + pad4(n as int));
    }
}

} // verus!
