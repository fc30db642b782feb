use chrono::Datelike;
use chrono::TimeZone;
use vstd::prelude::*;

verus! {

/// A calendar date of the proleptic Gregorian calendar, as the articles of a
/// blog carry it.
#[derive(Debug, Clone, Copy, PartialEq, Eq, Structural)]
pub struct Date {
    pub year: i32,
    pub month: u32,
    pub day: u32,
}

/// Gregorian leap years (year 0 and every fourth year but the centuries
/// that are not divisible by 400).
pub open spec fn is_leap_year(y: int) -> bool {
    y % 4 == 0 && (y % 100 != 0 || y % 400 == 0)
}

pub open spec fn days_in_month(y: int, m: int) -> int {
    if m == 2 {
        if is_leap_year(y) { 29 } else { 28 }
    } else if m == 4 || m == 6 || m == 9 || m == 11 {
        30
    } else {
        31
    }
}

/// The first and the last year that a date can have.
pub open spec fn min_year() -> int { -262143 }

pub open spec fn max_year() -> int { 262142 }

/// A day that exists in the calendar, within the years a date can have.
pub open spec fn valid_ymd(y: int, m: int, d: int) -> bool {
    &&& min_year() <= y <= max_year()
    &&& 1 <= m <= 12
    &&& 1 <= d <= days_in_month(y, m)
}

impl Date {
    pub open spec fn wf(self) -> bool {
        valid_ymd(self.year as int, self.month as int, self.day as int)
    }

    /// The date as a triple of integers.
    pub open spec fn ymd(self) -> (int, int, int) {
        (self.year as int, self.month as int, self.day as int)
    }
}

impl Date {
    /// Whether the date is a day of the calendar within the years a date can
    /// have.
    pub fn is_valid(&self) -> (r: bool)
        ensures
            r == self.wf(),
    {
        if self.year < -262143 || self.year > 262142 || self.month < 1 || self.month > 12 || self.day < 1 {
            return false;
        }
        let shifted: u32 = (self.year + 400000) as u32;
        assert(shifted % 4 == (self.year as int) % 4);
        assert(shifted % 100 == (self.year as int) % 100);
        assert(shifted % 400 == (self.year as int) % 400);
        let leap = shifted % 4 == 0 && (shifted % 100 != 0 || shifted % 400 == 0);
        let days: u32 = if self.month == 2 {
            if leap { 29 } else { 28 }
        } else if self.month == 4 || self.month == 6 || self.month == 9 || self.month == 11 {
            30
        } else {
            31
        };
        self.day <= days
    }
}

/// `a` comes strictly before `b`: earlier year, or same year and earlier
/// month, or same month and earlier day.
pub open spec fn date_before(a: Date, b: Date) -> bool {
    ||| a.year < b.year
    ||| a.year == b.year && a.month < b.month
    ||| a.year == b.year && a.month == b.month && a.day < b.day
}

/// Law: the days of the calendar.  Within chrono's years, every month from 1
/// to 12 has the days 1 to 28; every month but February has days 29 and 30;
/// January, March, May, July, August, October and December have day 31;
/// February has day 29 exactly in the years divisible by 4 but not by 100,
/// or by 400; no month has day 0 or a day after 31, and there is no month 0
/// or 13.
pub proof fn law_calendar_days(y: int, m: int, d: int)
    requires
        min_year() <= y <= max_year(),
    ensures
        1 <= m <= 12 && 1 <= d <= 28 ==> valid_ymd(y, m, d),
        1 <= m <= 12 && m != 2 && (d == 29 || d == 30) ==> valid_ymd(y, m, d),
        (m == 1 || m == 3 || m == 5 || m == 7 || m == 8 || m == 10 || m == 12) ==> valid_ymd(y, m, 31),
        (m == 2 || m == 4 || m == 6 || m == 9 || m == 11) ==> !valid_ymd(y, m, 31),
        !valid_ymd(y, 2, 30),
        valid_ymd(y, 2, 29) <==> (y % 4 == 0 && (y % 100 != 0 || y % 400 == 0)),
        d < 1 || d > 31 || m < 1 || m > 12 ==> !valid_ymd(y, m, d),
{
}

/// Law: dates are ordered by year, then by month, then by day, each
/// compared as a number: an earlier year comes first whatever the month and
/// day, an earlier month of the same year comes first whatever the day, and
/// within one month the smaller day number comes first.  The order is strict
/// and total on dates, and two dates neither of which comes first are the same
/// day.
pub proof fn law_date_order(a: Date, b: Date, c: Date)
    ensures
        a.year < b.year ==> date_before(a, b),
        a.year == b.year && a.month < b.month ==> date_before(a, b),
        a.year == b.year && a.month == b.month ==> (date_before(a, b) <==> a.day < b.day),
        date_before(a, b) ==> a.year <= b.year,
        date_before(a, b) && a.year == b.year ==> a.month <= b.month,
        !date_before(a, a),
        date_before(a, b) ==> !date_before(b, a),
        date_before(a, b) && date_before(b, c) ==> date_before(a, c),
        !date_before(a, b) && !date_before(b, a) ==> a == b,
{
}

/// Whether `a` comes strictly before `b`.
pub fn is_before(a: &Date, b: &Date) -> (r: bool)
    ensures
        r == date_before(*a, *b),
        a.year < b.year ==> r,
        a.year > b.year ==> !r,
        a.year == b.year && a.month < b.month ==> r,
        a.year == b.year && a.month > b.month ==> !r,
        a.year == b.year && a.month == b.month ==> (r <==> a.day < b.day),
{
    if a.year != b.year {
        a.year < b.year
    } else if a.month != b.month {
        a.month < b.month
    } else {
        a.day < b.day
    }
}

/// What `chrono::NaiveDate::parse_from_str` reads from a text with the format
/// `%Y-%m-%d`: the year, month and day of the date, or `None`.
pub uninterp spec fn spec_parse_date(text: Seq<char>) -> Option<(int, int, int)>;

/// Calls `chrono::NaiveDate::parse_from_str(text, "%Y-%m-%d")` and returns the
/// year, month and day of the date it reads.  Claimed: the result is the one
/// named by `spec_parse_date`, and a date that chrono returns is a valid day
/// within chrono's range of years (a `NaiveDate` cannot hold any other).
#[verifier::external_body]
fn chrono_parse_ymd(text: &str) -> (r: Option<Date>)
    ensures
        match r {
            Some(d) => spec_parse_date(text@) == Some(d.ymd()) && d.wf(),
            None => spec_parse_date(text@) is None,
        },
{
    match chrono::NaiveDate::parse_from_str(text, "%Y-%m-%d") {
        Ok(d) => Some(Date { year: d.year(), month: d.month(), day: d.day() }),
        Err(_) => None,
    }
}

/// Reads a date written as `YYYY-MM-DD`, as the front matter of an article
/// holds it.  `None` where chrono rejects the text.
pub fn parse_date(text: &str) -> (r: Option<Date>)
    ensures
        match r {
            Some(d) => spec_parse_date(text@) == Some(d.ymd()) && d.wf(),
            None => spec_parse_date(text@) is None,
        },
{
    chrono_parse_ymd(text)
}

/// What chrono's `DateTime::<Utc>::to_rfc2822` writes for noon UTC of the
/// given day.
pub uninterp spec fn spec_rfc2822_noon(y: int, m: int, d: int) -> Seq<char>;

/// Builds the `NaiveDate` of `date` at 12:00:00, takes it as UTC and calls
/// `to_rfc2822` on it.  Claimed: the text is the one named by
/// `spec_rfc2822_noon`.  chrono panics on years outside 0..=9999, which the
/// `requires` leaves out, as it leaves out days that do not exist.
#[verifier::external_body]
fn chrono_rfc2822_noon(date: Date) -> (r: String)
    requires
        date.wf(),
        0 <= date.year <= 9999,
    ensures
        r@ == spec_rfc2822_noon(date.year as int, date.month as int, date.day as int),
{
    let noon = chrono::NaiveDate::from_ymd_opt(date.year, date.month, date.day)
        .unwrap()
        .and_hms_opt(12, 0, 0)
        .unwrap();
    chrono::Utc.from_utc_datetime(&noon).to_rfc2822()
}

/// The publication date of a feed item: noon UTC of the day, in the format of
/// RFC 2822.
pub fn rfc2822_noon(date: &Date) -> (r: String)
    requires
        date.wf(),
        0 <= date.year <= 9999,
    ensures
        r@ == spec_rfc2822_noon(date.year as int, date.month as int, date.day as int),
{
    chrono_rfc2822_noon(*date)
}

} // verus!
