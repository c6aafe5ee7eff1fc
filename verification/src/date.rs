//! Calendar dates.
use vstd::prelude::*;
use crate::reading::digits_value;
use crate::text::{decimal, digits};

verus! {

/// How a date is written in a file name.
pub const DATE_FORMAT: &'static str = "%Y-%m-%d__data";

/// The year is a leap year of the Gregorian calendar.
pub open spec fn leap(year: int) -> bool {
    year % 4 == 0 && (year % 100 != 0 || year % 400 == 0)
}

/// Number of days in a month.
pub open spec fn days_in_month(year: int, month: int) -> int {
    if month == 2 {
        if leap(year) {
            29
        } else {
            28
        }
    } else if month == 4 || month == 6 || month == 9 || month == 11 {
        30
    } else {
        31
    }
}

/// The day is in the calendar, in a year that dates reach.
pub open spec fn valid_date(year: int, month: int, day: int) -> bool {
    &&& -262143 <= year <= 262142
    &&& 1 <= month <= 12
    &&& 1 <= day <= days_in_month(year, month)
}

/// A year: in four digits, or with its sign and at least four digits where it is before the year
/// zero or after the year 9999.
pub open spec fn year_text(year: int) -> Seq<char> {
    if 0 <= year <= 9999 {
        digits(year as nat, 4)
    } else if year < 0 {
        seq!['-'] + if year > -10000 {
            digits((-year) as nat, 4)
        } else {
            decimal((-year) as nat)
        }
    } else {
        seq!['+'] + decimal(year as nat)
    }
}

/// A day: the year, the month and the day of the month.
pub open spec fn day_text(year: int, month: int, day: int) -> Seq<char> {
    year_text(year) + "-"@ + digits(month as nat, 2) + "-"@ + digits(day as nat, 2)
}

/// A date as it is written in a file name.
pub open spec fn date_text(year: int, month: int, day: int) -> Seq<char> {
    day_text(year, month, day) + "__data"@
}

/// `chrono::NaiveDate::from_ymd_opt`: whether there is such a date.
#[verifier::external_body]
fn date_exists(year: i32, month: u32, day: u32) -> (r: bool)
    ensures
        r == valid_date(year as int, month as int, day as int),
{
    chrono::NaiveDate::from_ymd_opt(year, month, day).is_some()
}

/// `chrono::NaiveDate::format`: the year, the month and the day in place of `%Y`, `%m` and `%d`,
/// the last two in two digits, and all other characters as they are.
#[verifier::external_body]
fn format_date(year: i32, month: u32, day: u32, format: &str) -> (r: String)
    requires
        valid_date(year as int, month as int, day as int),
        format@ == DATE_FORMAT@,
    ensures
        r@ == date_text(year as int, month as int, day as int),
{
    chrono::NaiveDate::from_ymd_opt(year, month, day).unwrap().format(format).to_string()
}

/// A date of the Gregorian calendar.
#[derive(Clone, Copy, Debug)]
pub struct Date {
    year: i32,
    month: u32,
    day: u32,
}

impl Date {
    /// The year.
    pub closed spec fn year(self) -> int {
        self.year as int
    }

    /// The month, from 1 to 12.
    pub closed spec fn month(self) -> int {
        self.month as int
    }

    /// The day of the month, from 1.
    pub closed spec fn day(self) -> int {
        self.day as int
    }

    #[verifier::type_invariant]
    spec fn in_calendar(self) -> bool {
        valid_date(self.year as int, self.month as int, self.day as int)
    }

    /// The date as it is written in a file name.
    pub open spec fn text(self) -> Seq<char> {
        date_text(self.year(), self.month(), self.day())
    }

    /// Makes a date, where there is such a day.
    pub fn from_ymd_opt(year: i32, month: u32, day: u32) -> (r: Option<Date>)
        ensures
            r is Some <==> valid_date(year as int, month as int, day as int),
            r matches Some(date) ==> date.year() == year && date.month() == month && date.day()
                == day,
    {
        if date_exists(year, month, day) {
            Some(Date { year, month, day })
        } else {
            None
        }
    }

    /// Writes the date for a file name.
    pub fn to_text(&self) -> (r: String)
        ensures
            r@ == self.text(),
    {
        proof {
            use_type_invariant(self);
        }
        format_date(self.year, self.month, self.day, DATE_FORMAT)
    }
}

/// Every month has 28 days, and the days after these go by the calendar: a 29th of February comes
/// in leap years alone, and a 31st in seven months.
pub proof fn law_days_go_by_the_calendar(year: int, month: int, day: int)
    requires
        -262143 <= year <= 262142,
    ensures
        1 <= month <= 12 && 1 <= day <= 28 ==> valid_date(year, month, day),
        valid_date(year, month, 29) <==> 1 <= month <= 12 && (month != 2 || year % 400 == 0 || (year
            % 4 == 0 && year % 100 != 0)),
        valid_date(year, month, 30) <==> 1 <= month <= 12 && month != 2,
        valid_date(year, month, 31) <==> month == 1 || month == 3 || month == 5 || month == 7
            || month == 8 || month == 10 || month == 12,
        valid_date(year, month, day) ==> 1 <= month <= 12 && 1 <= day <= 31,
{
}

/// A date of a four-digit year reads back from its text: the year, the month and the day, with a
/// hyphen between them, and then the word that marks data.
pub proof fn law_date_reads_back(year: int, month: int, day: int)
    requires
        0 <= year <= 9999,
        1 <= month <= 12,
        1 <= day <= 31,
    ensures
        ({
            let text = date_text(year, month, day);
            &&& text.len() == 16
            &&& digits_value(text.subrange(0, 4)) == year
            &&& text[4] == '-'
            &&& digits_value(text.subrange(5, 7)) == month
            &&& text[7] == '-'
            &&& digits_value(text.subrange(8, 10)) == day
            &&& text.skip(10) == seq!['_', '_', 'd', 'a', 't', 'a']
        }),
{
    reveal_strlit("-");
    reveal_strlit("__data");
    let text = date_text(year, month, day);
    lemma_digits_read_back(year as nat);
    lemma_digits_read_back(month as nat);
    lemma_digits_read_back(day as nat);
    assert(text.subrange(0, 4) =~= digits(year as nat, 4));
    assert(text.subrange(5, 7) =~= digits(month as nat, 2));
    assert(text.subrange(8, 10) =~= digits(day as nat, 2));
    assert(text.skip(10) =~= seq!['_', '_', 'd', 'a', 't', 'a']);
}

/// A number in two or four digits reads back.
proof fn lemma_digits_read_back(n: nat)
    ensures
        digits(n, 2).len() == 2,
        digits(n, 4).len() == 4,
        n < 100 ==> digits_value(digits(n, 2)) == n,
        n < 10000 ==> digits_value(digits(n, 4)) == n,
{
    lemma_digits_value(n, 0);
    lemma_digits_value(n / 10 / 10 / 10, 1);
    lemma_digits_value(n / 10 / 10, 2);
    lemma_digits_value(n / 10, 1);
    lemma_digits_value(n / 10, 3);
    lemma_digits_value(n, 2);
    lemma_digits_value(n, 4);
    lemma_digits_value(n / 10 / 10, 0);
    lemma_digits_value(n / 10 / 10 / 10 / 10, 0);
}

/// One more digit counts ten times what the digits before it do, and itself.
proof fn lemma_digits_value(n: nat, width: nat)
    ensures
        digits(n, width).len() == width,
        width == 0 ==> digits_value(digits(n, width)) == 0,
        width > 0 ==> digits_value(digits(n, width)) == 10 * digits_value(
            digits(n / 10, (width - 1) as nat),
        ) + n % 10,
    decreases width,
{
    if width > 0 {
        lemma_digits_value(n / 10, (width - 1) as nat);
        assert(digits(n, width).drop_last() =~= digits(n / 10, (width - 1) as nat));
    }
}

} // verus!
