//! The proleptic Gregorian calendar.

use vstd::prelude::*;

use crate::text;

verus! {

/// The year has a 29th of February.
pub open spec fn is_leap_year(year: int) -> bool {
    year % 4 == 0 && (year % 100 != 0 || year % 400 == 0)
}

/// The number of days in a year.
pub open spec fn year_days(year: int) -> int {
    if is_leap_year(year) {
        366
    } else {
        365
    }
}

/// The number of days in a month of a year.
pub open spec fn month_days(year: int, month: int) -> int {
    if month == 4 || month == 6 || month == 9 || month == 11 {
        30
    } else if month != 2 {
        31
    } else if is_leap_year(year) {
        29
    } else {
        28
    }
}

/// The date occurs in the calendar.
pub open spec fn is_date(year: int, month: int, day: int) -> bool {
    1 <= month <= 12 && 1 <= day <= month_days(year, month)
}

/// The days from the first of January of the year 1 to that of a year.
pub open spec fn days_before_year(year: int) -> int {
    365 * (year - 1) + (year - 1) / 4 - (year - 1) / 100 + (year - 1) / 400
}

/// The days of a year that lie before a month.
pub open spec fn days_before_month(year: int, month: int) -> int
    decreases month,
{
    if month <= 1 {
        0
    } else {
        days_before_month(year, month - 1) + month_days(year, month - 1)
    }
}

/// The days from the first of January of the year 1 to a date.
pub open spec fn day_number(year: int, month: int, day: int) -> int {
    days_before_year(year) + days_before_month(year, month) + day - 1
}

/// The number of the day on which Unix time begins.
pub open spec fn epoch_day() -> int {
    day_number(1970, 1, 1)
}

/// The year, month and day with a day number.
pub open spec fn date_of(number: int) -> (int, int, int) {
    choose|year: int, month: int, day: int|
        is_date(year, month, day) && #[trigger] day_number(year, month, day) == number
}

/// Two decimal digits.
pub open spec fn two_digits(n: int) -> Seq<char> {
    seq![text::digit(n / 10), text::digit(n % 10)]
}

/// A year from 0 on: in four digits, or with a plus sign and as many digits as
/// it takes.
pub open spec fn year_text(year: int) -> Seq<char> {
    if year < 10_000 {
        two_digits(year / 100) + two_digits(year % 100)
    } else {
        seq!['+'] + text::digits(year as nat)
    }
}

/// A date as year, month and day with slashes between them.
pub open spec fn date_text(date: (int, int, int)) -> Seq<char> {
    year_text(date.0) + seq!['/'] + two_digits(date.1) + seq!['/'] + two_digits(date.2)
}

/// The time of day, `seconds` after midnight, in hours, minutes and seconds.
pub open spec fn time_of_day(seconds: int) -> Seq<char> {
    two_digits(seconds / 3600) + seq![':'] + two_digits(seconds / 60 % 60) + seq![':'] + two_digits(
        seconds % 60,
    )
}

/// The date and the time of day that a clock shows which is `seconds` past the
/// beginning of Unix time.
pub open spec fn clock_text(seconds: int) -> Seq<char> {
    date_text(date_of(epoch_day() + seconds / 86_400)) + seq![' '] + time_of_day(seconds % 86_400)
}

/// The months of a year follow each other without a gap and fill the year.
proof fn lemma_months(year: int)
    ensures
        days_before_month(year, 1) == 0,
        days_before_month(year, 12) + 31 == year_days(year),
        forall|m: int, n: int|
            1 <= m < n <= 12 ==> #[trigger] days_before_month(year, m) + month_days(year, m)
                <= #[trigger] days_before_month(year, n),
{
    reveal_with_fuel(days_before_month, 13);
}

/// A year begins when the days of the year before are over.
proof fn lemma_next_year(year: int)
    ensures
        days_before_year(year + 1) == days_before_year(year) + year_days(year),
{
}

/// A later year begins later.
proof fn lemma_years_apart(a: int, b: int)
    requires
        a < b,
    ensures
        days_before_year(a) + year_days(a) <= days_before_year(b),
    decreases b - a,
{
    lemma_next_year(b - 1);
    if a < b - 1 {
        lemma_years_apart(a, b - 1);
    }
}

/// A date lies within its year.
proof fn lemma_within_year(year: int, month: int, day: int)
    requires
        is_date(year, month, day),
    ensures
        days_before_year(year) <= day_number(year, month, day) < days_before_year(year) + year_days(
            year,
        ),
{
    lemma_months(year);
    if month < 12 {
        assert(days_before_month(year, month) + month_days(year, month) <= days_before_month(
            year,
            12,
        ));
    }
    if 1 < month {
        assert(days_before_month(year, 1) + month_days(year, 1) <= days_before_month(year, month));
    }
}

/// Each day has one date: the date with a date's day number is that date.
pub proof fn lemma_date_of(year: int, month: int, day: int)
    requires
        is_date(year, month, day),
    ensures
        date_of(day_number(year, month, day)) == (year, month, day),
{
    let (y, m, d) = date_of(day_number(year, month, day));
    assert(is_date(y, m, d) && day_number(y, m, d) == day_number(year, month, day));
    lemma_within_year(year, month, day);
    lemma_within_year(y, m, d);
    if y < year {
        lemma_years_apart(y, year);
    } else if year < y {
        lemma_years_apart(year, y);
    }
    lemma_months(year);
    if m < month {
        assert(days_before_month(year, m) + month_days(year, m) <= days_before_month(year, month));
    } else if month < m {
        assert(days_before_month(year, month) + month_days(year, month) <= days_before_month(
            year,
            m,
        ));
    }
}

/// Every day has a date: the calendar has no gap from the year 1 on.
pub proof fn lemma_every_day_has_a_date(number: int)
    requires
        0 <= number,
    ensures
        ({
            let (year, month, day) = date_of(number);
            is_date(year, month, day) && day_number(year, month, day) == number && 1 <= year
        }),
    decreases number,
{
    if number == 0 {
        assert(is_date(1, 1, 1) && day_number(1, 1, 1) == 0);
        lemma_date_of(1, 1, 1);
    } else {
        lemma_every_day_has_a_date(number - 1);
        let (year, month, day) = date_of(number - 1);
        if day < month_days(year, month) {
            assert(is_date(year, month, day + 1) && day_number(year, month, day + 1) == number);
            lemma_date_of(year, month, day + 1);
        } else if month < 12 {
            assert(is_date(year, month + 1, 1) && day_number(year, month + 1, 1) == number);
            lemma_date_of(year, month + 1, 1);
        } else {
            lemma_months(year);
            lemma_next_year(year);
            assert(is_date(year + 1, 1, 1) && day_number(year + 1, 1, 1) == number);
            lemma_date_of(year + 1, 1, 1);
        }
    }
}

/// Unix time begins on the first of January 1970.
pub proof fn lemma_epoch_date()
    ensures
        date_of(epoch_day()) == (1970int, 1int, 1int),
{
    lemma_date_of(1970, 1, 1);
}

/// A day's date follows from the date of the day before: the next day of the
/// month, or the first of the next month where the month is over, or the first of
/// January where the year is. February has 29 days in every fourth year but for
/// the full centuries that 400 does not divide.
pub proof fn lemma_next_day(number: int)
    requires
        0 <= number,
    ensures
        ({
            let (year, month, day) = date_of(number);
            let length: int = if month == 2 {
                if year % 400 == 0 || (year % 4 == 0 && year % 100 != 0) {
                    29
                } else {
                    28
                }
            } else if month == 4 || month == 6 || month == 9 || month == 11 {
                30
            } else {
                31
            };
            &&& 1 <= year
            &&& 1 <= month <= 12
            &&& 1 <= day <= length
            &&& date_of(number + 1) == (if day < length {
                (year, month, day + 1)
            } else if month < 12 {
                (year, month + 1, 1)
            } else {
                (year + 1, 1, 1)
            })
        }),
{
    lemma_every_day_has_a_date(number);
    let (year, month, day) = date_of(number);
    if day < month_days(year, month) {
        assert(day_number(year, month, day + 1) == number + 1);
        lemma_date_of(year, month, day + 1);
    } else if month < 12 {
        assert(day_number(year, month + 1, 1) == number + 1);
        lemma_date_of(year, month + 1, 1);
    } else {
        lemma_months(year);
        lemma_next_year(year);
        assert(day_number(year + 1, 1, 1) == number + 1);
        lemma_date_of(year + 1, 1, 1);
    }
}

/// A date's text by its codes: the year in four digits, or behind a plus sign
/// where it takes more, then a slash, the month, a slash and the day, these in two
/// digits each.
pub proof fn lemma_date_text_codes(year: int, month: int, day: int)
    requires
        0 <= year,
        1 <= month <= 12,
        1 <= day <= 31,
    ensures
        ({
            let t = date_text((year, month, day));
            let n = t.len();
            &&& n >= 6
            &&& t[n - 6] == '/'
            &&& t[n - 5] as int == 48 + month / 10
            &&& t[n - 4] as int == 48 + month % 10
            &&& t[n - 3] == '/'
            &&& t[n - 2] as int == 48 + day / 10
            &&& t[n - 1] as int == 48 + day % 10
            &&& year < 10_000 ==> {
                &&& n == 10
                &&& t[0] as int == 48 + year / 1000
                &&& t[1] as int == 48 + year / 100 % 10
                &&& t[2] as int == 48 + year / 10 % 10
                &&& t[3] as int == 48 + year % 10
            }
            &&& 10_000 <= year ==> t.take(n - 6) == seq!['+'] + text::decimal(year)
        }),
{
    let t = date_text((year, month, day));
    let y = year_text(year);
    assert(t.len() == y.len() + 6);
    if year < 10_000 {
        assert(y.len() == 4);
        assert(y[0] == text::digit(year / 100 / 10));
        assert(y[1] == text::digit(year / 100 % 10));
        assert(y[2] == text::digit(year % 100 / 10));
        assert(y[3] == text::digit(year % 100 % 10));
        assert(t[0] == y[0] && t[1] == y[1] && t[2] == y[2] && t[3] == y[3]);
    } else {
        assert(t.take(t.len() - 6) =~= y);
        assert(y =~= seq!['+'] + text::decimal(year));
    }
}

/// What a clock shows is the date of the day, a space, and the time of day.
pub proof fn lemma_clock_text_parts(seconds: int)
    ensures
        ({
            let t = clock_text(seconds);
            let n = t.len();
            &&& n >= 9
            &&& t.take(n - 9) == date_text(date_of(epoch_day() + seconds / 86_400))
            &&& t[n - 9] == ' '
            &&& t.skip(n - 8) == time_of_day(seconds % 86_400)
        }),
{
    let t = clock_text(seconds);
    let date = date_text(date_of(epoch_day() + seconds / 86_400));
    let time = time_of_day(seconds % 86_400);
    assert(time.len() == 8);
    assert(t.len() == date.len() + 9);
    assert(t.take(t.len() - 9) =~= date);
    assert(t.skip(t.len() - 8) =~= time);
}

/// The time of day by its codes: hour, minute and second in two digits each, with
/// colons between them.
pub proof fn lemma_time_of_day_codes(hour: int, minute: int, second: int)
    requires
        0 <= hour < 24,
        0 <= minute < 60,
        0 <= second < 60,
    ensures
        ({
            let t = time_of_day(3600 * hour + 60 * minute + second);
            &&& t.len() == 8
            &&& t[0] as int == 48 + hour / 10
            &&& t[1] as int == 48 + hour % 10
            &&& t[2] == ':'
            &&& t[3] as int == 48 + minute / 10
            &&& t[4] as int == 48 + minute % 10
            &&& t[5] == ':'
            &&& t[6] as int == 48 + second / 10
            &&& t[7] as int == 48 + second % 10
        }),
{
    let n = 3600 * hour + 60 * minute + second;
    assert(n / 3600 == hour);
    assert(n / 60 == 60 * hour + minute);
    assert(n / 60 % 60 == minute);
    assert(n % 60 == second);
}

} // verus!
