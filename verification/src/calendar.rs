//! Calendar dates, times of day and instants, as far as a schedule reads them.
//!
//! Weekdays, ISO weeks and day arithmetic come from `chrono`; this module
//! states what it takes from there.

use vstd::prelude::*;
use chrono::{Datelike, Days, NaiveDate};

verus! {

/// The first year a date can lie in.
pub const MIN_YEAR: i32 = -262143;

/// The last year a date can lie in.
pub const MAX_YEAR: i32 = 262142;

/// Whether `year` has a 29th of February in the proleptic Gregorian calendar.
pub open spec fn is_leap_year(year: int) -> bool {
    year % 4 == 0 && (year % 100 != 0 || year % 400 == 0)
}

/// The number of days of the given month.
pub open spec fn days_in_month(year: int, month: int) -> int {
    if month == 2 {
        if is_leap_year(year) {
            29
        } else {
            28
        }
    } else if month == 4 || month == 6 || month == 9 || month == 11 {
        30
    } else {
        31
    }
}

/// A calendar date: year, month from 1 and day of the month from 1.
pub struct Ymd {
    pub year: int,
    pub month: int,
    pub day: int,
}

/// A time of day.
pub struct Hms {
    pub hour: int,
    pub minute: int,
    pub second: int,
}

/// A date with a time of day.
pub struct Instant {
    pub date: Ymd,
    pub time: Hms,
}

impl Ymd {
    /// The date exists and its year lies between `MIN_YEAR` and `MAX_YEAR`.
    pub open spec fn valid(self) -> bool {
        &&& MIN_YEAR <= self.year <= MAX_YEAR
        &&& 1 <= self.month <= 12
        &&& 1 <= self.day <= days_in_month(self.year, self.month)
    }

    /// The following day; nothing after the last day of `MAX_YEAR`.
    pub open spec fn next_day(self) -> Option<Ymd> {
        if self.day < days_in_month(self.year, self.month) {
            Some(Ymd { day: self.day + 1, ..self })
        } else if self.month < 12 {
            Some(Ymd { year: self.year, month: self.month + 1, day: 1 })
        } else if self.year < MAX_YEAR {
            Some(Ymd { year: self.year + 1, month: 1, day: 1 })
        } else {
            None
        }
    }

    /// The date `days` days later; nothing where that lies after `MAX_YEAR`.
    pub open spec fn plus_days(self, days: nat) -> Option<Ymd>
        decreases days,
    {
        if days == 0 {
            Some(self)
        } else {
            match self.next_day() {
                Some(next) => next.plus_days((days - 1) as nat),
                None => None,
            }
        }
    }

    /// Whether `self` lies before `other`.
    pub open spec fn before(self, other: Ymd) -> bool {
        self.year < other.year || (self.year == other.year && (self.month < other.month || (
        self.month == other.month && self.day < other.day)))
    }

    /// The day after a valid date is a valid date, and lies after it.
    pub proof fn lemma_next_day(self)
        requires
            self.valid(),
        ensures
            self.next_day() matches Some(next) ==> next.valid() && self.before(next),
    {
    }

    /// A later day of a valid date is a valid date; it lies after the date
    /// unless no day was added.
    pub proof fn lemma_plus_days(self, days: nat)
        requires
            self.valid(),
        ensures
            self.plus_days(days) matches Some(later) ==> later.valid() && (days > 0
                ==> self.before(later)) && (days == 0 ==> later == self),
        decreases days,
    {
        if days > 0 {
            self.lemma_next_day();
            if let Some(next) = self.next_day() {
                next.lemma_plus_days((days - 1) as nat);
            }
        }
    }

    /// Of two dates that differ, one lies before the other.
    pub proof fn lemma_before_or_after(self, other: Ymd)
        ensures
            self == other || self.before(other) || other.before(self),
            !(self.before(other) && other.before(self)),
            !self.before(self),
    {
    }

    /// No date lies between a date and the day after it.
    pub proof fn lemma_nothing_between(self, between: Ymd)
        requires
            self.valid(),
            between.valid(),
        ensures
            self.next_day() matches Some(next) ==> !(self.before(between) && between.before(next)),
    {
    }

    /// Every date between a date and a later day of it is a later day of it
    /// too, and a nearer one.
    pub proof fn lemma_days_between(self, days: nat, between: Ymd)
        requires
            self.valid(),
            between.valid(),
            self.before(between),
            self.plus_days(days) matches Some(end) && between.before(end),
        ensures
            exists|j: nat| 0 < j < days && #[trigger] self.plus_days(j) == Some(between),
        decreases days,
    {
        if days == 0 {
            assert(self.plus_days(0) == Some(self));
        } else {
            let nearer = (days - 1) as nat;
            self.lemma_plus_days_step(nearer);
            self.lemma_plus_days(nearer);
            let middle = self.plus_days(nearer).unwrap();
            middle.lemma_nothing_between(between);
            middle.lemma_before_or_after(between);
            if between == middle {
                assert(nearer > 0) by {
                    if nearer == 0 {
                        assert(self.plus_days(0) == Some(self));
                    }
                }
                assert(self.plus_days(nearer) == Some(between));
            } else {
                assert(between.before(middle));
                self.lemma_days_between(nearer, between);
            }
        }
    }

    /// One day more is the day after.
    pub proof fn lemma_plus_days_step(self, days: nat)
        ensures
            self.plus_days(days + 1) == match self.plus_days(days) {
                Some(later) => later.next_day(),
                None => None,
            },
        decreases days,
    {
        reveal_with_fuel(Ymd::plus_days, 3);
        if days > 0 {
            if let Some(next) = self.next_day() {
                next.lemma_plus_days_step((days - 1) as nat);
            }
        }
    }
}

impl Hms {
    /// Hour, minute and second lie within a day.
    pub open spec fn valid(self) -> bool {
        0 <= self.hour < 24 && 0 <= self.minute < 60 && 0 <= self.second < 60
    }

    /// Whether `self` lies before `other`.
    pub open spec fn before(self, other: Hms) -> bool {
        self.hour < other.hour || (self.hour == other.hour && (self.minute < other.minute || (
        self.minute == other.minute && self.second < other.second)))
    }
}

impl Instant {
    /// Date and time are valid.
    pub open spec fn valid(self) -> bool {
        self.date.valid() && self.time.valid()
    }

    /// Whether `self` lies before `other`.
    pub open spec fn before(self, other: Instant) -> bool {
        self.date.before(other.date) || (self.date == other.date && self.time.before(other.time))
    }

    /// The same time of day, `days` days later.
    pub open spec fn plus_days(self, days: nat) -> Option<Instant> {
        match self.date.plus_days(days) {
            Some(date) => Some(Instant { date, time: self.time }),
            None => None,
        }
    }
}

/// The day of the week of a valid date as `chrono` numbers it, Monday being 0.
pub uninterp spec fn weekday_number(year: int, month: int, day: int) -> int;

/// The ISO 8601 week of a valid date as `chrono` numbers it, less one.
pub uninterp spec fn iso_week_number(year: int, month: int, day: int) -> int;

/// `chrono`'s `NaiveDate::weekday`, as days from Monday. The contract only
/// names the result; the date handed over exists, so `from_ymd_opt` gives one.
#[verifier::external_body]
fn chrono_weekday(year: i32, month: u32, day: u32) -> (r: u32)
    requires
        (Ymd { year: year as int, month: month as int, day: day as int }).valid(),
    ensures
        r == weekday_number(year as int, month as int, day as int),
{
    NaiveDate::from_ymd_opt(year, month, day).unwrap().weekday().num_days_from_monday()
}

/// `chrono`'s `NaiveDate::iso_week`, as the week number counted from 0. The
/// contract only names the result.
#[verifier::external_body]
fn chrono_iso_week0(year: i32, month: u32, day: u32) -> (r: u32)
    requires
        (Ymd { year: year as int, month: month as int, day: day as int }).valid(),
    ensures
        r == iso_week_number(year as int, month as int, day as int),
{
    NaiveDate::from_ymd_opt(year, month, day).unwrap().iso_week().week0()
}

/// `chrono`'s `NaiveDate::checked_add_days`. The contract claims that it
/// counts days forward through the proleptic Gregorian calendar and gives
/// nothing once the count passes the last day of `MAX_YEAR`.
#[verifier::external_body]
fn chrono_add_days(year: i32, month: u32, day: u32, days: u64) -> (r: Option<(i32, u32, u32)>)
    requires
        (Ymd { year: year as int, month: month as int, day: day as int }).valid(),
    ensures
        match (Ymd { year: year as int, month: month as int, day: day as int }).plus_days(
            days as nat,
        ) {
            Some(later) => r == Some((later.year as i32, later.month as u32, later.day as u32)),
            None => r is None,
        },
{
    let later = NaiveDate::from_ymd_opt(year, month, day).unwrap().checked_add_days(
        Days::new(days),
    )?;
    Some((later.year(), later.month(), later.day()))
}

/// A date of the proleptic Gregorian calendar.
#[derive(Debug, Clone, Copy, PartialEq, Eq, PartialOrd, Ord, Hash, Structural)]
pub struct Date {
    year: i32,
    month: u32,
    day: u32,
}

/// A time of day, to the second.
#[derive(Debug, Clone, Copy, PartialEq, Eq, PartialOrd, Ord, Hash, Structural)]
pub struct Time {
    hour: u32,
    minute: u32,
    second: u32,
}

/// A date and a time of day, without a time zone.
#[derive(Debug, Clone, Copy, PartialEq, Eq, PartialOrd, Ord, Hash, Structural)]
pub struct DateTime {
    date: Date,
    time: Time,
}

impl View for Date {
    type V = Ymd;

    closed spec fn view(&self) -> Ymd {
        Ymd { year: self.year as int, month: self.month as int, day: self.day as int }
    }
}

impl View for Time {
    type V = Hms;

    closed spec fn view(&self) -> Hms {
        Hms { hour: self.hour as int, minute: self.minute as int, second: self.second as int }
    }
}

impl View for DateTime {
    type V = Instant;

    closed spec fn view(&self) -> Instant {
        Instant { date: self.date@, time: self.time@ }
    }
}

/// The view of the date an optional result holds.
pub open spec fn date_view(date: Option<Date>) -> Option<Ymd> {
    match date {
        Some(d) => Some(d@),
        None => None,
    }
}

/// The view of the time an optional result holds.
pub open spec fn time_view(time: Option<Time>) -> Option<Hms> {
    match time {
        Some(t) => Some(t@),
        None => None,
    }
}

/// The view of the instant an optional result holds.
pub open spec fn instant_view(instant: Option<DateTime>) -> Option<Instant> {
    match instant {
        Some(i) => Some(i@),
        None => None,
    }
}

/// Whether `year` is a leap year.
pub fn leap_year(year: i32) -> (r: bool)
    ensures
        r == is_leap_year(year as int),
{
    year % 4 == 0 && (year % 100 != 0 || year % 400 == 0)
}

/// The number of days of the given month.
pub fn month_length(year: i32, month: u32) -> (r: u32)
    ensures
        r == days_in_month(year as int, month as int),
{
    if month == 2 {
        if leap_year(year) {
            29
        } else {
            28
        }
    } else if month == 4 || month == 6 || month == 9 || month == 11 {
        30
    } else {
        31
    }
}

impl Date {
    /// Every date exists in the calendar.
    #[verifier::type_invariant]
    pub closed spec fn wf(self) -> bool {
        self@.valid()
    }

    /// The date with the given year, month (from 1) and day (from 1), if the
    /// calendar has it.
    pub fn from_ymd_opt(year: i32, month: u32, day: u32) -> (r: Option<Date>)
        ensures
            date_view(r) == (if (Ymd {
                year: year as int,
                month: month as int,
                day: day as int,
            }).valid() {
                Some(Ymd { year: year as int, month: month as int, day: day as int })
            } else {
                None
            }),
    {
        if year < MIN_YEAR || year > MAX_YEAR || month < 1 || month > 12 || day < 1 {
            return None;
        }
        if day > month_length(year, month) {
            return None;
        }
        Some(Date { year, month, day })
    }

    pub fn year(&self) -> (r: i32)
        ensures
            r == self@.year,
            self@.valid(),
    {
        proof {
            use_type_invariant(self);
        }
        self.year
    }

    /// The month, January being 1.
    pub fn month(&self) -> (r: u32)
        ensures
            r == self@.month,
            self@.valid(),
    {
        proof {
            use_type_invariant(self);
        }
        self.month
    }

    /// The month, January being 0.
    pub fn month0(&self) -> (r: u32)
        ensures
            r == self@.month - 1,
            self@.valid(),
    {
        proof {
            use_type_invariant(self);
        }
        self.month - 1
    }

    /// The day of the month, the first being 1.
    pub fn day(&self) -> (r: u32)
        ensures
            r == self@.day,
            self@.valid(),
    {
        proof {
            use_type_invariant(self);
        }
        self.day
    }

    /// The day of the month, the first being 0.
    pub fn day0(&self) -> (r: u32)
        ensures
            r == self@.day - 1,
            self@.valid(),
    {
        proof {
            use_type_invariant(self);
        }
        self.day - 1
    }

    /// The day of the week, Monday being 0.
    pub fn weekday_from_monday(&self) -> (r: u32)
        ensures
            r == weekday_number(self@.year, self@.month, self@.day),
    {
        proof {
            use_type_invariant(self);
        }
        chrono_weekday(self.year, self.month, self.day)
    }

    /// The ISO week of the year, the first being 0.
    pub fn iso_week0(&self) -> (r: u32)
        ensures
            r == iso_week_number(self@.year, self@.month, self@.day),
    {
        proof {
            use_type_invariant(self);
        }
        chrono_iso_week0(self.year, self.month, self.day)
    }

    /// The date `days` days later, unless that lies after `MAX_YEAR`.
    pub fn checked_add_days(&self, days: u64) -> (r: Option<Date>)
        ensures
            date_view(r) == self@.plus_days(days as nat),
    {
        proof {
            use_type_invariant(self);
            self@.lemma_plus_days(days as nat);
        }
        match chrono_add_days(self.year, self.month, self.day, days) {
            Some((year, month, day)) => Some(Date { year, month, day }),
            None => None,
        }
    }

    /// The instant at `time` on this date.
    pub fn and_time(&self, time: Time) -> (r: DateTime)
        ensures
            r@ == (Instant { date: self@, time: time@ }),
    {
        DateTime { date: *self, time }
    }

    /// The instant at the given hour, minute and second on this date, if a day
    /// has that time.
    pub fn and_hms_opt(&self, hour: u32, minute: u32, second: u32) -> (r: Option<DateTime>)
        ensures
            instant_view(r) == (if hour < 24 && minute < 60 && second < 60 {
                Some(
                    Instant {
                        date: self@,
                        time: Hms {
                            hour: hour as int,
                            minute: minute as int,
                            second: second as int,
                        },
                    },
                )
            } else {
                None
            }),
    {
        match Time::from_hms_opt(hour, minute, second) {
            Some(time) => Some(DateTime { date: *self, time }),
            None => None,
        }
    }

    /// Whether this date lies before `other`.
    pub fn is_before(&self, other: &Date) -> (r: bool)
        ensures
            r == self@.before(other@),
    {
        self.year < other.year || (self.year == other.year && (self.month < other.month || (
        self.month == other.month && self.day < other.day)))
    }
}

impl Time {
    /// Every time lies within a day.
    #[verifier::type_invariant]
    pub closed spec fn wf(self) -> bool {
        self@.valid()
    }

    /// The time with the given hour, minute and second, if a day has it.
    pub fn from_hms_opt(hour: u32, minute: u32, second: u32) -> (r: Option<Time>)
        ensures
            time_view(r) == (if hour < 24 && minute < 60 && second < 60 {
                Some(Hms { hour: hour as int, minute: minute as int, second: second as int })
            } else {
                None
            }),
    {
        if hour < 24 && minute < 60 && second < 60 {
            Some(Time { hour, minute, second })
        } else {
            None
        }
    }

    pub fn hour(&self) -> (r: u32)
        ensures
            r == self@.hour,
            self@.valid(),
    {
        proof {
            use_type_invariant(self);
        }
        self.hour
    }

    pub fn minute(&self) -> (r: u32)
        ensures
            r == self@.minute,
            self@.valid(),
    {
        proof {
            use_type_invariant(self);
        }
        self.minute
    }

    pub fn second(&self) -> (r: u32)
        ensures
            r == self@.second,
            self@.valid(),
    {
        proof {
            use_type_invariant(self);
        }
        self.second
    }

    /// Whether this time lies before `other`.
    pub fn is_before(&self, other: &Time) -> (r: bool)
        ensures
            r == self@.before(other@),
    {
        self.hour < other.hour || (self.hour == other.hour && (self.minute < other.minute || (
        self.minute == other.minute && self.second < other.second)))
    }
}

impl DateTime {
    /// The instant at `time` on `date`.
    pub fn new(date: Date, time: Time) -> (r: DateTime)
        ensures
            r@ == (Instant { date: date@, time: time@ }),
    {
        DateTime { date, time }
    }

    pub fn date(&self) -> (r: Date)
        ensures
            r@ == self@.date,
            self@.valid(),
    {
        proof {
            use_type_invariant(&self.date);
            use_type_invariant(&self.time);
        }
        self.date
    }

    pub fn time(&self) -> (r: Time)
        ensures
            r@ == self@.time,
            self@.valid(),
    {
        proof {
            use_type_invariant(&self.date);
            use_type_invariant(&self.time);
        }
        self.time
    }

    /// The same time of day `days` days later, unless that lies after
    /// `MAX_YEAR`.
    pub fn checked_add_days(&self, days: u64) -> (r: Option<DateTime>)
        ensures
            instant_view(r) == self@.plus_days(days as nat),
    {
        match self.date.checked_add_days(days) {
            Some(date) => Some(DateTime { date, time: self.time }),
            None => None,
        }
    }

    /// Whether this instant lies before `other`.
    pub fn is_before(&self, other: &DateTime) -> (r: bool)
        ensures
            r == self@.before(other@),
    {
        self.date.is_before(&other.date) || (self.date.year == other.date.year && self.date.month
            == other.date.month && self.date.day == other.date.day && self.time.is_before(
            &other.time,
        ))
    }
}

} // verus!
