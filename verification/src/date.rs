//! Calendar dates.

use vstd::prelude::*;
use crate::digits::all_digits;
use crate::digits::number_below_power;
use crate::digits::number_of;
use crate::digits::padded;
use crate::digits::padded_is_read_back;
use crate::digits::parse_number;
use crate::digits::pow10;
use crate::digits::push_padded;
use crate::text::chars_of;
use crate::text::string_of;

verus! {

/// Whether `year` has a 29th of February.
pub open spec fn is_leap_year(year: int) -> bool {
    year % 4 == 0 && (year % 100 != 0 || year % 400 == 0)
}

/// The number of days of `month` (1 to 12) in `year`; 0 for any other
/// month.
pub open spec fn days_in_month(year: int, month: int) -> int {
    if month == 2 {
        if is_leap_year(year) {
            29
        } else {
            28
        }
    } else if month == 4 || month == 6 || month == 9 || month == 11 {
        30
    } else if 1 <= month <= 12 {
        31
    } else {
        0
    }
}

/// A day of the calendar.
#[derive(Clone, Copy, Debug, PartialEq, Eq, Structural)]
pub struct Date {
    pub year: u16,
    pub month: u8,
    pub day: u8,
}

impl Date {
    /// A date is well formed when it names a day that exists, in a year of
    /// at most four digits.
    pub open spec fn wf(self) -> bool {
        &&& self.year <= 9999
        &&& 1 <= self.month <= 12
        &&& 1 <= self.day <= days_in_month(self.year as int, self.month as int)
    }

    /// The date of the given year, month and day, if there is such a day.
    pub fn new(year: u16, month: u8, day: u8) -> (r: Option<Date>)
        ensures
            r == if (Date { year, month, day }).wf() {
                Some(Date { year, month, day })
            } else {
                None::<Date>
            },
    {
        if year > 9999 || month < 1 || month > 12 || day < 1 {
            return None;
        }
        let leap = year % 4 == 0 && (year % 100 != 0 || year % 400 == 0);
        let last: u8 = if month == 2 {
            if leap {
                29
            } else {
                28
            }
        } else if month == 4 || month == 6 || month == 9 || month == 11 {
            30
        } else {
            31
        };
        if day > last {
            return None;
        }
        Some(Date { year, month, day })
    }

    /// Whether the date names a day that exists.
    pub fn is_wf(self) -> (r: bool)
        ensures
            r == self.wf(),
    {
        Date::new(self.year, self.month, self.day).is_some()
    }

    /// The first of January 1970.
    pub fn epoch() -> (d: Date)
        ensures
            d == (Date { year: 1970, month: 1, day: 1 }),
            d.wf(),
    {
        Date { year: 1970, month: 1, day: 1 }
    }

    /// Whether this date is `other` or a later day.
    pub open spec fn on_or_after(self, other: Date) -> bool {
        ||| self.year > other.year
        ||| self.year == other.year && self.month > other.month
        ||| self.year == other.year && self.month == other.month && self.day >= other.day
    }

    /// Whether this date is `other` or a later day.
    pub fn is_on_or_after(self, other: Date) -> (r: bool)
        ensures
            r == self.on_or_after(other),
    {
        self.year > other.year || (self.year == other.year && (self.month > other.month || (
        self.month == other.month && self.day >= other.day)))
    }
}

/// A date as text: the year in four digits, the month in two and the day
/// in two, with a hyphen between them, as in `1970-01-01`.
pub open spec fn date_text(d: Date) -> Seq<char> {
    padded(d.year as nat, 4) + seq!['-'] + padded(d.month as nat, 2) + seq!['-'] + padded(
        d.day as nat,
        2,
    )
}

/// The date that a text stands for, if it has the form of `date_text`
/// and names a day that exists.
pub open spec fn date_value(text: Seq<char>) -> Option<Date> {
    if text.len() == 10 && text[4] == '-' && text[7] == '-' && all_digits(text.subrange(0, 4))
        && all_digits(text.subrange(5, 7)) && all_digits(text.subrange(8, 10)) {
        let d = Date {
            year: number_of(text.subrange(0, 4)) as u16,
            month: number_of(text.subrange(5, 7)) as u8,
            day: number_of(text.subrange(8, 10)) as u8,
        };
        if d.wf() {
            Some(d)
        } else {
            None
        }
    } else {
        None
    }
}

/// Reading the text of a date gives the date back.
pub proof fn date_text_is_read_back(d: Date)
    requires
        d.wf(),
    ensures
        date_value(date_text(d)) == Some(d),
{
    let text = date_text(d);
    padded_is_read_back(d.year as nat, 4);
    padded_is_read_back(d.month as nat, 2);
    padded_is_read_back(d.day as nat, 2);
    assert(pow10(2) == 100 && pow10(4) == 10000) by {
        reveal_with_fuel(pow10, 5);
    }
    assert(text.subrange(0, 4) =~= padded(d.year as nat, 4));
    assert(text.subrange(5, 7) =~= padded(d.month as nat, 2));
    assert(text.subrange(8, 10) =~= padded(d.day as nat, 2));
    assert(text[4] == '-');
    assert(text[7] == '-');
}

impl Date {
    /// Reads a date from the characters `chars`.
    pub fn parse_chars(chars: &Vec<char>) -> (r: Option<Date>)
        ensures
            r == date_value(chars@),
            r matches Some(d) ==> d.wf(),
    {
        if chars.len() != 10 || chars[4] != '-' || chars[7] != '-' {
            return None;
        }
        proof {
            assert(pow10(2) == 100 && pow10(4) == 10000) by {
                reveal_with_fuel(pow10, 5);
            }
            if all_digits(chars@.subrange(0, 4)) {
                number_below_power(chars@.subrange(0, 4));
            }
            if all_digits(chars@.subrange(5, 7)) {
                number_below_power(chars@.subrange(5, 7));
            }
            if all_digits(chars@.subrange(8, 10)) {
                number_below_power(chars@.subrange(8, 10));
            }
        }
        let year = parse_number(chars, 0, 4);
        let month = parse_number(chars, 5, 7);
        let day = parse_number(chars, 8, 10);
        match (year, month, day) {
            (Some(y), Some(m), Some(d)) => Date::new(y as u16, m as u8, d as u8),
            _ => None,
        }
    }

    /// Reads a date from `text`.
    pub fn parse(text: &str) -> (r: Option<Date>)
        ensures
            r == date_value(text@),
            r matches Some(d) ==> d.wf(),
    {
        let chars = chars_of(text);
        Date::parse_chars(&chars)
    }

    /// Appends the text of the date to `out`.
    pub fn push_text(self, out: &mut Vec<char>)
        ensures
            final(out)@ == old(out)@ + date_text(self),
    {
        push_padded(out, self.year as u64, 4);
        out.push('-');
        push_padded(out, self.month as u64, 2);
        out.push('-');
        push_padded(out, self.day as u64, 2);
        proof {
            assert(out@ =~= old(out)@ + date_text(self));
        }
    }

    /// The text of the date.
    pub fn render(self) -> (r: String)
        ensures
            r@ == date_text(self),
    {
        let mut out: Vec<char> = Vec::new();
        self.push_text(&mut out);
        proof {
            assert(out@ =~= date_text(self));
        }
        string_of(&out)
    }
}

} // verus!
