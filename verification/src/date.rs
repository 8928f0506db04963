//! Calendar dates and instants as plain numbers.
//!
//! A [`Date`] is a day of the proleptic Gregorian calendar, a [`Timestamp`] a
//! second of such a day in UTC. The calendar arithmetic and the formatting
//! are chrono's; what this module believes of them is stated on the private
//! functions at its end.
use chrono::{Datelike, Duration, NaiveDate, Timelike, Utc};
use vstd::prelude::*;

use crate::text::{decimal, four_digits, two_digits};

verus! {

/// The first year that a date can lie in.
pub const MIN_YEAR: i32 = -262143;

/// The last year that a date can lie in.
pub const MAX_YEAR: i32 = 262142;

/// A date as the contracts see it: year, month and day of the month.
pub struct Ymd {
    pub year: int,
    pub month: int,
    pub day: int,
}

/// An instant as the contracts see it: a date and a time of day.
pub struct Moment {
    pub date: Ymd,
    pub hour: int,
    pub minute: int,
    pub second: int,
}

/// Every fourth year is a leap year, but of the years that end a century only
/// every fourth. Year 0 and the years before it follow the same rule.
pub open spec fn is_leap_year(year: int) -> bool {
    year % 4 == 0 && (year % 100 != 0 || year % 400 == 0)
}

/// The number of days of the month `month` in the year `year`.
pub open spec fn days_in_month(year: int, month: int) -> int {
    if month == 2 {
        if is_leap_year(year) {
            29
        } else {
            28
        }
    } else if month == 4 || month == 6 || month == 9 || month == 11 {
        30
    } else {
        31
    }
}

impl Ymd {
    /// The day exists in the calendar and its year is one that a date can
    /// lie in.
    pub open spec fn valid(self) -> bool {
        &&& MIN_YEAR <= self.year <= MAX_YEAR
        &&& 1 <= self.month <= 12
        &&& 1 <= self.day <= days_in_month(self.year, self.month)
    }

    /// The last day that a date can be.
    pub open spec fn is_last(self) -> bool {
        self.year == MAX_YEAR && self.month == 12 && self.day == 31
    }

    /// The day after this one.
    pub open spec fn day_after(self) -> Ymd {
        if self.day < days_in_month(self.year, self.month) {
            Ymd { year: self.year, month: self.month, day: self.day + 1 }
        } else if self.month < 12 {
            Ymd { year: self.year, month: self.month + 1, day: 1 }
        } else {
            Ymd { year: self.year + 1, month: 1, day: 1 }
        }
    }
}

impl Moment {
    /// The date is valid and the time is one of the 86400 seconds of a day.
    pub open spec fn valid(self) -> bool {
        &&& self.date.valid()
        &&& 0 <= self.hour < 24
        &&& 0 <= self.minute < 60
        &&& 0 <= self.second < 60
    }
}

/// The day after a valid date other than the last is a valid date.
pub proof fn lemma_day_after_valid(date: Ymd)
    requires
        date.valid(),
        !date.is_last(),
    ensures
        date.day_after().valid(),
{
}

/// A year as text: four digits for the years 0 to 9999. Any other year has a
/// sign in front and at least four digits.
pub open spec fn year_text(year: int) -> Seq<char> {
    if 0 <= year <= 9999 {
        four_digits(year)
    } else if year < -9999 {
        seq!['-'] + decimal((-year) as nat)
    } else if year < 0 {
        seq!['-'] + four_digits(-year)
    } else {
        seq!['+'] + decimal(year as nat)
    }
}

/// A date in the basic format: year, month and day without separators, as
/// in `19700813`.
pub open spec fn basic_date_text(date: Ymd) -> Seq<char> {
    year_text(date.year) + two_digits(date.month) + two_digits(date.day)
}

/// A date in the extended format: year, month and day with hyphens between
/// them, as in `1970-08-13`.
pub open spec fn extended_date_text(date: Ymd) -> Seq<char> {
    year_text(date.year) + seq!['-'] + two_digits(date.month) + seq!['-'] + two_digits(date.day)
}

/// An instant in the basic format of UTC time, as in `19700813T000000Z`.
pub open spec fn basic_timestamp_text(at: Moment) -> Seq<char> {
    basic_date_text(at.date) + seq!['T'] + two_digits(at.hour) + two_digits(at.minute)
        + two_digits(at.second) + seq!['Z']
}

/// The pattern that chrono writes a date in the basic format for.
pub const BASIC_DATE: &'static str = "%Y%m%d";

/// The pattern that chrono writes an instant in the basic format for.
pub const BASIC_TIMESTAMP: &'static str = "%Y%m%dT%H%M%SZ";

/// The day of the week of a date, as the number of days since the last
/// Monday: 0 for a Monday up to 6 for a Sunday.
pub uninterp spec fn weekday_index(year: int, month: int, day: int) -> int;

/// A day of the week.
#[derive(Clone, Copy, Debug, PartialEq, Eq, Structural)]
pub enum Weekday {
    Mon,
    Tue,
    Wed,
    Thu,
    Fri,
    Sat,
    Sun,
}

impl Weekday {
    /// The day of the week that is `index` days after a Monday, for an index
    /// below 7.
    pub open spec fn at(index: int) -> Weekday {
        if index == 0 {
            Weekday::Mon
        } else if index == 1 {
            Weekday::Tue
        } else if index == 2 {
            Weekday::Wed
        } else if index == 3 {
            Weekday::Thu
        } else if index == 4 {
            Weekday::Fri
        } else if index == 5 {
            Weekday::Sat
        } else {
            Weekday::Sun
        }
    }

    /// The day of the week that is `index` days after a Monday, or `None`
    /// for an index that is no day of a week.
    pub fn from_monday_index(index: u32) -> (day: Option<Weekday>)
        ensures
            day is Some <==> index < 7,
            day matches Some(d) ==> d == Weekday::at(index as int),
    {
        match index {
            0 => Some(Weekday::Mon),
            1 => Some(Weekday::Tue),
            2 => Some(Weekday::Wed),
            3 => Some(Weekday::Thu),
            4 => Some(Weekday::Fri),
            5 => Some(Weekday::Sat),
            6 => Some(Weekday::Sun),
            _ => None,
        }
    }
}

/// A day of the calendar.
#[derive(Clone, Copy, Debug)]
pub struct Date {
    year: i32,
    month: u32,
    day: u32,
}

impl View for Date {
    type V = Ymd;

    closed spec fn view(&self) -> Ymd {
        Ymd { year: self.year as int, month: self.month as int, day: self.day as int }
    }
}

impl Date {
    /// Every date that exists as a value is a valid one.
    #[verifier::type_invariant]
    pub open spec fn exists_in_calendar(self) -> bool {
        self@.valid()
    }

    /// The date of the given year, month and day, if there is such a day.
    pub fn from_ymd(year: i32, month: u32, day: u32) -> (date: Option<Date>)
        ensures
            date is Some <==> (Ymd { year: year as int, month: month as int, day: day as int }).valid(),
            date matches Some(d) ==> d@ == (Ymd {
                year: year as int,
                month: month as int,
                day: day as int,
            }),
    {
        if date_exists(year, month, day) {
            Some(Date { year, month, day })
        } else {
            None
        }
    }

    /// The year.
    pub fn year(&self) -> (year: i32)
        ensures
            year == self@.year,
    {
        self.year
    }

    /// The month, from 1 to 12.
    pub fn month(&self) -> (month: u32)
        ensures
            month == self@.month,
    {
        self.month
    }

    /// The day of the month, from 1 to 31.
    pub fn day(&self) -> (day: u32)
        ensures
            day == self@.day,
    {
        self.day
    }

    /// Whether a day follows this one among the dates.
    pub fn has_successor(&self) -> (some: bool)
        ensures
            some == !self@.is_last(),
    {
        !(self.year == MAX_YEAR && self.month == 12 && self.day == 31)
    }

    /// The day after this one, or `None` after the last date.
    pub fn successor(&self) -> (next: Option<Date>)
        ensures
            next is Some <==> !self@.is_last(),
            next matches Some(d) ==> d@ == self@.day_after(),
    {
        proof {
            use_type_invariant(self);
        }
        if self.has_successor() {
            let (year, month, day) = following_day(self.year, self.month, self.day);
            proof {
                lemma_day_after_valid(self@);
            }
            Some(Date { year, month, day })
        } else {
            None
        }
    }

    /// The day of the week.
    pub fn weekday(&self) -> (day: Weekday)
        ensures
            day == Weekday::at(weekday_index(self@.year, self@.month, self@.day)),
    {
        proof {
            use_type_invariant(self);
        }
        match Weekday::from_monday_index(day_of_week(self.year, self.month, self.day)) {
            Some(day) => day,
            None => Weekday::Sun,
        }
    }

    /// The date in the basic format, as in `19700813`.
    pub fn to_basic_string(&self) -> (text: String)
        ensures
            text@ == basic_date_text(self@),
    {
        proof {
            use_type_invariant(self);
        }
        format_date(self.year, self.month, self.day, BASIC_DATE)
    }

    /// The date in the extended format, as in `1970-08-13`.
    pub fn to_string(&self) -> (text: String)
        ensures
            text@ == extended_date_text(self@),
    {
        proof {
            use_type_invariant(self);
        }
        display_date(self.year, self.month, self.day)
    }
}

/// A second of a day, in UTC.
#[derive(Clone, Copy, Debug)]
pub struct Timestamp {
    date: Date,
    hour: u32,
    minute: u32,
    second: u32,
}

impl View for Timestamp {
    type V = Moment;

    closed spec fn view(&self) -> Moment {
        Moment {
            date: self.date@,
            hour: self.hour as int,
            minute: self.minute as int,
            second: self.second as int,
        }
    }
}

impl Timestamp {
    /// Every instant that exists as a value is a valid one.
    #[verifier::type_invariant]
    pub open spec fn exists_in_day(self) -> bool {
        self@.valid()
    }

    /// The instant at the given time of the given day, if the day has such a
    /// time.
    pub fn new(date: Date, hour: u32, minute: u32, second: u32) -> (at: Option<Timestamp>)
        ensures
            at is Some <==> hour < 24 && minute < 60 && second < 60,
            at matches Some(t) ==> t@ == (Moment {
                date: date@,
                hour: hour as int,
                minute: minute as int,
                second: second as int,
            }),
    {
        if hour < 24 && minute < 60 && second < 60 {
            proof {
                use_type_invariant(date);
            }
            Some(Timestamp { date, hour, minute, second })
        } else {
            None
        }
    }

    /// The present instant. Nothing is known of it but that it is one.
    pub fn now() -> (at: Timestamp)
        ensures
            at@.valid(),
    {
        current_time()
    }

    /// The day that the instant lies in.
    pub fn date(&self) -> (date: Date)
        ensures
            date@ == self@.date,
    {
        self.date
    }

    /// The hour of the day, from 0 to 23.
    pub fn hour(&self) -> (hour: u32)
        ensures
            hour == self@.hour,
    {
        self.hour
    }

    /// The minute of the hour, from 0 to 59.
    pub fn minute(&self) -> (minute: u32)
        ensures
            minute == self@.minute,
    {
        self.minute
    }

    /// The second of the minute, from 0 to 59.
    pub fn second(&self) -> (second: u32)
        ensures
            second == self@.second,
    {
        self.second
    }

    /// The instant in the basic format, as in `19700813T000000Z`.
    pub fn to_basic_string(&self) -> (text: String)
        ensures
            text@ == basic_timestamp_text(self@),
    {
        proof {
            use_type_invariant(self);
            use_type_invariant(self.date);
        }
        format_instant(
            self.date.year,
            self.date.month,
            self.date.day,
            self.hour,
            self.minute,
            self.second,
            BASIC_TIMESTAMP,
        )
    }
}

/// `NaiveDate::from_ymd_opt` of chrono, asked whether it finds a date. It
/// finds one exactly for the days of the proleptic Gregorian calendar in the
/// years from `MIN_YEAR` to `MAX_YEAR`.
#[verifier::external_body]
fn date_exists(year: i32, month: u32, day: u32) -> (found: bool)
    ensures
        found == (Ymd { year: year as int, month: month as int, day: day as int }).valid(),
{
    NaiveDate::from_ymd_opt(year, month, day).is_some()
}

/// Adding `Duration::days(1)` to a `NaiveDate` of chrono. For every date but
/// the last, the sum is the next day of the calendar.
#[verifier::external_body]
fn following_day(year: i32, month: u32, day: u32) -> (next: (i32, u32, u32))
    requires
        (Ymd { year: year as int, month: month as int, day: day as int }).valid(),
        !(Ymd { year: year as int, month: month as int, day: day as int }).is_last(),
    ensures
        (Ymd { year: next.0 as int, month: next.1 as int, day: next.2 as int }) == (Ymd {
            year: year as int,
            month: month as int,
            day: day as int,
        }).day_after(),
{
    let next = NaiveDate::from_ymd_opt(year, month, day).unwrap() + Duration::days(1);
    (next.year(), next.month(), next.day())
}

/// `Datelike::weekday` of chrono on a `NaiveDate`, as the number that
/// `Weekday::num_days_from_monday` gives it: 0 for Monday up to 6 for Sunday.
/// The number depends on the date alone.
#[verifier::external_body]
fn day_of_week(year: i32, month: u32, day: u32) -> (n: u32)
    requires
        (Ymd { year: year as int, month: month as int, day: day as int }).valid(),
    ensures
        n == weekday_index(year as int, month as int, day as int),
        n < 7,
{
    NaiveDate::from_ymd_opt(year, month, day).unwrap().weekday().num_days_from_monday()
}

/// `NaiveDate::format` of chrono with the pattern `%Y%m%d`, written to a
/// string. `%Y` gives the year in four digits, or signed where four digits
/// cannot hold it; `%m` and `%d` give month and day in two digits each.
#[verifier::external_body]
fn format_date(year: i32, month: u32, day: u32, pattern: &str) -> (text: String)
    requires
        (Ymd { year: year as int, month: month as int, day: day as int }).valid(),
        pattern@ == BASIC_DATE@,
    ensures
        text@ == basic_date_text(Ymd { year: year as int, month: month as int, day: day as int }),
{
    NaiveDate::from_ymd_opt(year, month, day).unwrap().format(pattern).to_string()
}

/// `Display` of chrono's `NaiveDate`, written to a string: the year as `%Y`
/// gives it, then month and day in two digits each, with hyphens between.
#[verifier::external_body]
fn display_date(year: i32, month: u32, day: u32) -> (text: String)
    requires
        (Ymd { year: year as int, month: month as int, day: day as int }).valid(),
    ensures
        text@ == extended_date_text(
            Ymd { year: year as int, month: month as int, day: day as int },
        ),
{
    NaiveDate::from_ymd_opt(year, month, day).unwrap().to_string()
}

/// `DateTime::<Utc>::format` of chrono with the pattern `%Y%m%dT%H%M%SZ`,
/// written to a string: the date as `%Y%m%d` gives it, the letter `T`, hour,
/// minute and second in two digits each, and the letter `Z`.
#[verifier::external_body]
fn format_instant(
    year: i32,
    month: u32,
    day: u32,
    hour: u32,
    minute: u32,
    second: u32,
    pattern: &str,
) -> (text: String)
    requires
        (Ymd { year: year as int, month: month as int, day: day as int }).valid(),
        hour < 24,
        minute < 60,
        second < 60,
        pattern@ == BASIC_TIMESTAMP@,
    ensures
        text@ == basic_timestamp_text(
            Moment {
                date: Ymd { year: year as int, month: month as int, day: day as int },
                hour: hour as int,
                minute: minute as int,
                second: second as int,
            },
        ),
{
    let date = NaiveDate::from_ymd_opt(year, month, day).unwrap();
    date.and_hms_opt(hour, minute, second).unwrap().and_utc().format(pattern).to_string()
}

/// `Utc::now` of chrono, read as year, month, day, hour, minute and second.
/// Whatever the clock says, these are a date of the calendar and a time of
/// day.
#[verifier::external_body]
fn current_time() -> (at: Timestamp)
    ensures
        at@.valid(),
{
    let now = Utc::now();
    Timestamp {
        date: Date { year: now.year(), month: now.month(), day: now.day() },
        hour: now.hour(),
        minute: now.minute(),
        second: now.second(),
    }
}

} // verus!
