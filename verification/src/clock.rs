//! The time of day, as request timestamps and trade dates need it.

use vstd::prelude::*;

use crate::calendar;

verus! {

/// The last second that the calendar reaches, counted from the Unix epoch: the
/// end of the year 262142.
pub const LAST_SECOND: i64 = 8_210_266_876_799;

/// The seconds by which Taiwan's time is ahead of UTC.
pub const TAIWAN_OFFSET: i32 = 28_800;

/// How a trade date is written: year, month and day, then the time of day.
pub const TRADE_DATE_PATTERN: &'static str = "%Y/%m/%d %H:%M:%S";

/// `chrono::Utc::now` with `DateTime::timestamp`: the whole seconds since the
/// Unix epoch. It is no earlier than the epoch and within the calendar; which
/// second it is depends on when the call is made. A clock that is set before
/// the epoch makes the call panic.
#[verifier::external_body]
pub(crate) fn utc_now() -> (r: i64)
    ensures
        0 <= r <= LAST_SECOND,
{
    chrono::Utc::now().timestamp()
}

/// The clock gave this second: it is a result of reading the clock.
pub closed spec fn clock_gave(seconds: i64) -> bool {
    call_ensures(utc_now, (), seconds)
}

/// Only reading the clock shows that it gave a second.
pub(crate) proof fn lemma_clock_gave(seconds: i64)
    ensures
        clock_gave(seconds) == call_ensures(utc_now, (), seconds),
{
}

/// `chrono::DateTime::from_timestamp`, `with_timezone` at a fixed offset,
/// `format` and `to_string`, with the pattern of a trade date: the text is what
/// a clock shows that is `offset` seconds ahead of UTC. The year, month and day
/// are those of the proleptic Gregorian calendar, a year after 9999 has a plus
/// sign, and the time of day follows.
#[verifier::external_body]
fn format_time(seconds: i64, offset: i32, pattern: &str) -> (r: String)
    requires
        0 <= seconds <= LAST_SECOND,
        -86_400 < offset < 86_400,
        pattern@ == TRADE_DATE_PATTERN@,
    ensures
        r@ == calendar::clock_text(seconds + offset),
{
    chrono::DateTime::from_timestamp(seconds, 0)
        .unwrap()
        .with_timezone(&chrono::FixedOffset::east_opt(offset).unwrap())
        .format(pattern)
        .to_string()
}

/// The trade date at a second: Taiwan's date and time of day.
pub open spec fn trade_date(seconds: i64) -> Seq<char> {
    calendar::clock_text(seconds + TAIWAN_OFFSET)
}

/// The text is the trade date at some second of the calendar.
pub open spec fn is_trade_date(date: Seq<char>) -> bool {
    exists|seconds: i64| 0 <= seconds <= LAST_SECOND && date == #[trigger] trade_date(seconds)
}

/// The trade date at a second.
pub fn trade_date_at(seconds: i64) -> (r: String)
    requires
        0 <= seconds <= LAST_SECOND,
    ensures
        r@ == trade_date(seconds),
{
    format_time(seconds, TAIWAN_OFFSET, TRADE_DATE_PATTERN)
}

/// [`trade_date_at`] shows a clock that is eight hours ahead of UTC: the date of
/// the day that it is there, a space, and the time of day there.
pub proof fn lemma_trade_date_at(seconds: i64, r: String)
    requires
        call_ensures(trade_date_at, (seconds,), r),
    ensures
        r@ == trade_date(seconds),
        ({
            let there = seconds + 8 * 3600;
            let n = r@.len();
            let today = calendar::date_of(calendar::epoch_day() + there / 86_400);
            &&& n >= 9
            &&& r@.take(n - 9) == calendar::date_text(today)
            &&& r@[n - 9] == ' '
            &&& r@.skip(n - 8) == calendar::time_of_day(there % 86_400)
        }),
{
    calendar::lemma_clock_text_parts(seconds + 8 * 3600);
}

} // verus!
