//! A schedule over six axes: minutes, hours, weekdays, days of the month,
//! ISO weeks and months.

use vstd::prelude::*;
use vstd::string::StringExecFns;
use crate::calendar::{
    date_view, instant_view, iso_week_number, time_view, weekday_number, Date, DateTime, Hms,
    Instant, Time, Ymd,
};
use crate::date_time_match::DateTimeMatch;
use crate::months::Month;
use crate::ordinal::Ordinal;
use crate::rule::{Rule, SpecifierView};
use crate::specifier::{Specifier, SpecifierKind};
use crate::text::{decimal, push_decimal};
use crate::weekdays::Weekday;

verus! {

/// How many days after an instant `next_datetime` looks for a date.
pub const SEARCH_DAYS: u32 = 365;

/// A schedule in the manner of a crontab line.
///
/// If neither the weekdays nor the days of the month are `All`, a date needs
/// to agree with one of the two only.
#[derive(Debug, PartialEq)]
pub struct Interval {
    /// Range 0-59
    pub minutes: Specifier<u32>,
    /// Range 0-23
    pub hours: Specifier<u32>,
    /// Range Monday-Sunday
    pub weekdays: Specifier<Weekday>,
    /// Range 0-31
    pub monthdays: Specifier<u32>,
    /// Range 0-52
    pub weeks: Specifier<u32>,
    /// Range January-December
    pub months: Specifier<Month>,
}

/// What an interval is: its six specifiers.
pub struct IntervalView {
    pub minutes: SpecifierView,
    pub hours: SpecifierView,
    pub weekdays: SpecifierView,
    pub monthdays: SpecifierView,
    pub weeks: SpecifierView,
    pub months: SpecifierView,
}

/// The range of `v` is `[lower, upper]`.
pub open spec fn has_range(v: SpecifierView, lower: int, upper: int) -> bool {
    v.lower == lower && v.upper == upper
}

/// The text that reports a range `[v.lower, v.upper]` other than the one
/// `axis` is to have. `before` and `after` stand around each end of the range.
pub open spec fn range_report(
    axis: Seq<char>,
    expected: Seq<char>,
    before: Seq<char>,
    after: Seq<char>,
    v: SpecifierView,
) -> Seq<char> {
    axis + " are not in range "@ + expected + ". Got "@ + before + decimal(v.lower as nat) + after
        + "..="@ + before + decimal(v.upper as nat) + after
}

/// The text that reports a `value` for `axis` outside the range `expected`.
pub open spec fn value_report(axis: Seq<char>, expected: Seq<char>, value: nat) -> Seq<char> {
    "Expect '"@ + axis + "' to be in range "@ + expected + ". Got "@ + decimal(value)
}

impl IntervalView {
    /// Each specifier is well-formed.
    pub open spec fn wf(self) -> bool {
        &&& self.minutes.wf()
        &&& self.hours.wf()
        &&& self.weekdays.wf()
        &&& self.monthdays.wf()
        &&& self.weeks.wf()
        &&& self.months.wf()
    }

    /// Each specifier has the range of its axis.
    pub open spec fn valid(self) -> bool {
        &&& has_range(self.minutes, 0, 59)
        &&& has_range(self.hours, 0, 23)
        &&& has_range(self.weekdays, 0, 6)
        &&& has_range(self.monthdays, 0, 31)
        &&& has_range(self.weeks, 0, 52)
        &&& has_range(self.months, 0, 11)
    }

    /// The report on the first axis, in the order of the fields, whose range is
    /// not the one it is to have.
    pub open spec fn validation_report(self) -> Seq<char> {
        if !has_range(self.minutes, 0, 59) {
            range_report("Minutes"@, "0..=59"@, ""@, ""@, self.minutes)
        } else if !has_range(self.hours, 0, 23) {
            range_report("Hours"@, "0..=23"@, ""@, ""@, self.hours)
        } else if !has_range(self.weekdays, 0, 6) {
            range_report(
                "Weekdays"@,
                "Weekday { day: 0 }..=Weekday { day: 6 }"@,
                "Weekday { day: "@,
                " }"@,
                self.weekdays,
            )
        } else if !has_range(self.monthdays, 0, 31) {
            range_report("Monthdays"@, "0..=31"@, ""@, ""@, self.monthdays)
        } else if !has_range(self.weeks, 0, 52) {
            range_report("Weeks"@, "0..=52"@, ""@, ""@, self.weeks)
        } else {
            range_report(
                "Months"@,
                "Month { month: 0 }..=Month { month: 11 }"@,
                "Month { month: "@,
                " }"@,
                self.months,
            )
        }
    }

    /// Whether the schedule has a day with the given weekday (from Monday, 0),
    /// day of the month (from 0), ISO week (from 0) and month (from 0).
    ///
    /// Weekday and day of the month need to agree both, unless neither rule is
    /// `All`: then one of them is enough. Week and month always need to agree.
    pub open spec fn matches_day(self, weekday: int, day0: int, week0: int, month0: int) -> bool {
        let weekday_match = self.weekdays.matches(weekday);
        let monthday_match = self.monthdays.matches(day0);
        let day_match = if !(self.weekdays.rule is All) && !(self.monthdays.rule is All) {
            weekday_match || monthday_match
        } else {
            weekday_match && monthday_match
        };
        day_match && self.weeks.matches(week0) && self.months.matches(month0)
    }

    /// Whether the schedule has the date.
    pub open spec fn matches_date(self, date: Ymd) -> bool {
        self.matches_day(
            weekday_number(date.year, date.month, date.day) % 7,
            date.day - 1,
            iso_week_number(date.year, date.month, date.day),
            date.month - 1,
        )
    }

    /// Whether the schedule has the time of day, seconds aside.
    pub open spec fn matches_time(self, time: Hms) -> bool {
        self.minutes.matches(time.minute) && self.hours.matches(time.hour)
    }

    /// Whether the schedule has the instant, and if not, whether the date or
    /// only the time keeps it out.
    pub open spec fn matches_datetime(self, instant: Instant) -> DateTimeMatch {
        if !self.matches_date(instant.date) {
            DateTimeMatch::DateNotMatched
        } else if !self.matches_time(instant.time) {
            DateTimeMatch::TimeNotMatched
        } else {
            DateTimeMatch::Matched
        }
    }

    /// Whether one of the six rules picks nothing.
    pub open spec fn has_none_specifier(self) -> bool {
        ||| self.minutes.rule is Nothing
        ||| self.hours.rule is Nothing
        ||| self.weekdays.rule is Nothing
        ||| self.monthdays.rule is Nothing
        ||| self.weeks.rule is Nothing
        ||| self.months.rule is Nothing
    }

    /// The minute that follows `time` in the schedule of a day: within the
    /// hour of `time` if the schedule has that hour, else the first minute the
    /// schedule has at all.
    pub open spec fn next_minute(self, time: Hms) -> Option<int> {
        if self.hours.matches(time.hour) {
            self.minutes.cyclic_next(time.minute)
        } else {
            self.minutes.first_match()
        }
    }

    /// The time of day that follows `time` in the schedule, the first time of
    /// the day following the last. The second is 0.
    pub open spec fn cyclic_next_daytime(self, time: Hms) -> Option<Hms> {
        match self.next_minute(time) {
            None => None,
            Some(minute) => {
                let hour = if self.hours.matches(time.hour) && minute > time.minute {
                    Some(time.hour)
                } else {
                    self.hours.cyclic_next(time.hour)
                };
                match hour {
                    Some(hour) if hour < 24 && minute < 60 => Some(Hms { hour, minute, second: 0 }),
                    _ => None,
                }
            },
        }
    }

    /// The first time of day of the schedule.
    pub open spec fn first_daytime(self) -> Option<Hms> {
        self.cyclic_next_daytime(Hms { hour: 23, minute: 59, second: 59 })
    }

    /// The time of day that follows `time` in the schedule on the same day.
    pub open spec fn next_daytime(self, time: Hms) -> Option<Hms> {
        match self.cyclic_next_daytime(time) {
            Some(next) if time.before(next) => Some(next),
            _ => None,
        }
    }

    /// The first date of the schedule among the `tries` days after `date`.
    pub open spec fn next_matching_date(self, date: Ymd, tries: nat) -> Option<Ymd>
        decreases tries,
    {
        if tries == 0 {
            None
        } else {
            match date.next_day() {
                None => None,
                Some(next) => if self.matches_date(next) {
                    Some(next)
                } else {
                    self.next_matching_date(next, (tries - 1) as nat)
                },
            }
        }
    }

    /// The instant of the schedule that follows `instant`: later on the same
    /// day if that day and a later time of it are in the schedule, else the
    /// first time of day on the first date of the schedule among the 365 days
    /// after.
    pub open spec fn next_datetime(self, instant: Instant) -> Option<Instant> {
        let date_matches = self.matches_date(instant.date);
        let next_time = if date_matches {
            self.cyclic_next_daytime(instant.time)
        } else {
            self.first_daytime()
        };
        match next_time {
            None => None,
            Some(time) => if date_matches && instant.time.before(time) {
                Some(Instant { date: instant.date, time })
            } else {
                match self.next_matching_date(instant.date, SEARCH_DAYS as nat) {
                    Some(date) => Some(Instant { date, time }),
                    None => None,
                }
            },
        }
    }
}

impl View for Interval {
    type V = IntervalView;

    open spec fn view(&self) -> IntervalView {
        IntervalView {
            minutes: self.minutes@,
            hours: self.hours@,
            weekdays: self.weekdays@,
            monthdays: self.monthdays@,
            weeks: self.weeks@,
            months: self.months@,
        }
    }
}

/// The report on a range `[lower, upper]` other than the one `axis` is to
/// have.
fn report_range(
    axis: &str,
    expected: &str,
    before: &str,
    after: &str,
    lower: u32,
    upper: u32,
) -> (r: String)
    ensures
        r@ == axis@ + " are not in range "@ + expected@ + ". Got "@ + before@ + decimal(
            lower as nat,
        ) + after@ + "..="@ + before@ + decimal(upper as nat) + after@,
{
    let mut out = String::from_str(axis);
    out.append(" are not in range ");
    out.append(expected);
    out.append(". Got ");
    out.append(before);
    push_decimal(&mut out, lower);
    out.append(after);
    out.append("..=");
    out.append(before);
    push_decimal(&mut out, upper);
    out.append(after);
    out
}

/// The report on a `value` for `axis` outside the range `expected`.
fn report_value(axis: &str, expected: &str, value: u32) -> (r: String)
    ensures
        r@ == value_report(axis@, expected@, value as nat),
{
    let mut out = String::from_str("Expect '");
    out.append(axis);
    out.append("' to be in range ");
    out.append(expected);
    out.append(". Got ");
    push_decimal(&mut out, value);
    out
}

impl Interval {
    /// The schedule that has the given time on every day.
    ///
    /// Fails, with a report, on a minute above 59 or else an hour above 23.
    pub fn daily(minute: u32, hour: u32) -> (r: Result<Interval, String>)
        ensures
            r is Ok <==> minute <= 59 && hour <= 23,
            r matches Ok(interval) ==> interval@ == (IntervalView {
                minutes: SpecifierView { lower: 0, upper: 59, rule: Rule::Nth(minute) },
                hours: SpecifierView { lower: 0, upper: 23, rule: Rule::Nth(hour) },
                weekdays: SpecifierView { lower: 0, upper: 6, rule: Rule::All },
                monthdays: SpecifierView { lower: 0, upper: 31, rule: Rule::All },
                weeks: SpecifierView { lower: 0, upper: 52, rule: Rule::All },
                months: SpecifierView { lower: 0, upper: 11, rule: Rule::All },
            }),
            r matches Err(report) ==> report@ == (if minute > 59 {
                value_report("minute"@, "0..=59"@, minute as nat)
            } else {
                value_report("hour"@, "0..=23"@, hour as nat)
            }),
    {
        if minute > 59 {
            return Err(report_value("minute", "0..=59", minute));
        }
        if hour > 23 {
            return Err(report_value("hour", "0..=23", hour));
        }
        let mut builder = IntervalBuilder::default();
        builder.minutes(SpecifierKind::Nth(minute));
        builder.hours(SpecifierKind::Nth(hour));
        match builder.build() {
            Ok(interval) => Ok(interval),
            Err(_) => Err(String::from_str("the interval could not be built")),
        }
    }

    /// Checks that each specifier has the range of its axis, which a value
    /// that did not come from the builder need not have.
    ///
    /// Fails with a report on the first axis that has another range.
    pub fn validate(&self) -> (r: Result<(), String>)
        ensures
            r is Ok <==> self@.valid(),
            r matches Err(report) ==> report@ == self@.validation_report(),
    {
        let (lower, upper) = (self.minutes.min(), self.minutes.max());
        if lower != 0 || upper != 59 {
            return Err(report_range("Minutes", "0..=59", "", "", lower, upper));
        }
        let (lower, upper) = (self.hours.min(), self.hours.max());
        if lower != 0 || upper != 23 {
            return Err(report_range("Hours", "0..=23", "", "", lower, upper));
        }
        let (lower, upper) = (self.weekdays.min().to_u32(), self.weekdays.max().to_u32());
        if lower != 0 || upper != 6 {
            return Err(
                report_range(
                    "Weekdays",
                    "Weekday { day: 0 }..=Weekday { day: 6 }",
                    "Weekday { day: ",
                    " }",
                    lower,
                    upper,
                ),
            );
        }
        let (lower, upper) = (self.monthdays.min(), self.monthdays.max());
        if lower != 0 || upper != 31 {
            return Err(report_range("Monthdays", "0..=31", "", "", lower, upper));
        }
        let (lower, upper) = (self.weeks.min(), self.weeks.max());
        if lower != 0 || upper != 52 {
            return Err(report_range("Weeks", "0..=52", "", "", lower, upper));
        }
        let (lower, upper) = (self.months.min().to_u32(), self.months.max().to_u32());
        if lower != 0 || upper != 11 {
            return Err(
                report_range(
                    "Months",
                    "Month { month: 0 }..=Month { month: 11 }",
                    "Month { month: ",
                    " }",
                    lower,
                    upper,
                ),
            );
        }
        Ok(())
    }

    /// Whether the schedule has a day with the given weekday, day of the month
    /// (from 0), ISO week (from 0) and month.
    pub fn matches_day(&self, weekday: Weekday, day0: u32, week0: u32, month: Month) -> (r: bool)
        ensures
            r == self@.matches_day(
                weekday.index() as int,
                day0 as int,
                week0 as int,
                month.index() as int,
            ),
    {
        let weekday_match = self.weekdays.matches(weekday);
        let monthday_match = self.monthdays.matches(day0);
        let day_match = if !self.weekdays.kind().is_all() && !self.monthdays.kind().is_all() {
            weekday_match || monthday_match
        } else {
            weekday_match && monthday_match
        };
        let week_match = self.weeks.matches(week0);
        let month_match = self.months.matches(month);
        day_match && week_match && month_match
    }

    /// Whether the schedule has the date.
    pub fn matches_date(&self, date: Date) -> (r: bool)
        ensures
            r == self@.matches_date(date@),
    {
        let weekday = Weekday::from_u32(date.weekday_from_monday());
        let month = Month::from_u32(date.month0());
        self.matches_day(weekday, date.day0(), date.iso_week0(), month)
    }

    /// Whether the schedule has the time of day, seconds aside.
    pub fn matches_time(&self, time: Time) -> (r: bool)
        ensures
            r == self@.matches_time(time@),
    {
        self.minutes.matches(time.minute()) && self.hours.matches(time.hour())
    }

    /// Whether the schedule has the instant; if it has not, `DateNotMatched`
    /// where the date is missing, `TimeNotMatched` where only the time is.
    pub fn matches_datetime(&self, datetime: DateTime) -> (r: DateTimeMatch)
        ensures
            r == self@.matches_datetime(datetime@),
    {
        if !self.matches_date(datetime.date()) {
            return DateTimeMatch::DateNotMatched;
        }
        if !self.matches_time(datetime.time()) {
            return DateTimeMatch::TimeNotMatched;
        }
        DateTimeMatch::Matched
    }

    /// Whether two intervals are the same schedule.
    pub fn same_as(&self, other: &Interval) -> (r: bool)
        ensures
            r == (self@ == other@),
    {
        self.minutes.same_as(&other.minutes) && self.hours.same_as(&other.hours)
            && self.weekdays.same_as(&other.weekdays) && self.monthdays.same_as(&other.monthdays)
            && self.weeks.same_as(&other.weeks) && self.months.same_as(&other.months)
    }

    /// Whether one of the six rules picks nothing.
    pub fn has_none_specifier(&self) -> (r: bool)
        ensures
            r == self@.has_none_specifier(),
    {
        self.minutes.kind().is_nothing() || self.hours.kind().is_nothing()
            || self.weekdays.kind().is_nothing() || self.monthdays.kind().is_nothing()
            || self.weeks.kind().is_nothing() || self.months.kind().is_nothing()
    }

    /// The time of day that follows `time` in the schedule on the same day.
    pub fn next_daytime(&self, time: Time) -> (r: Option<Time>)
        ensures
            time_view(r) == self@.next_daytime(time@),
    {
        match self.cyclic_next_daytime(time) {
            Some(next) => if time.is_before(&next) {
                Some(next)
            } else {
                None
            },
            None => None,
        }
    }

    /// The time of day that follows `time` in the schedule, the first time of
    /// the day following the last.
    pub fn cyclic_next_daytime(&self, time: Time) -> (r: Option<Time>)
        ensures
            time_view(r) == self@.cyclic_next_daytime(time@),
    {
        let hour_matches = self.hours.matches(time.hour());
        let found_minute = if hour_matches {
            self.minutes.cyclic_next(time.minute())
        } else {
            self.minutes.first_match()
        };
        let next_minute = match found_minute {
            Some(minute) => minute,
            None => {
                return None;
            },
        };
        let next_hour = if hour_matches && next_minute > time.minute() {
            time.hour()
        } else {
            match self.hours.cyclic_next(time.hour()) {
                Some(hour) => hour,
                None => {
                    return None;
                },
            }
        };
        Time::from_hms_opt(next_hour, next_minute, 0)
    }

    /// The instant of the schedule that follows `datetime`, looked for on the
    /// day of `datetime` and the 365 days after it.
    pub fn next_datetime(&self, datetime: DateTime) -> (r: Option<DateTime>)
        ensures
            instant_view(r) == self@.next_datetime(datetime@),
    {
        let date = datetime.date();
        let date_matches = self.matches_date(date);
        let base = if date_matches {
            Some(datetime.time())
        } else {
            Time::from_hms_opt(23, 59, 59)
        };
        let found_time = match base {
            Some(time) => self.cyclic_next_daytime(time),
            None => None,
        };
        let next_time = match found_time {
            Some(time) => time,
            None => {
                return None;
            },
        };
        if date_matches && datetime.time().is_before(&next_time) {
            return Some(DateTime::new(date, next_time));
        }
        let ghost found = self@.next_matching_date(date@, SEARCH_DAYS as nat);
        let mut current = date;
        let mut left: u32 = SEARCH_DAYS;
        while left > 0
            invariant
                found == self@.next_matching_date(current@, left as nat),
                self@.next_datetime(datetime@) == (match found {
                    Some(date) => Some(Instant { date, time: next_time@ }),
                    None => None,
                }),
            decreases left,
        {
            proof {
                reveal_with_fuel(Ymd::plus_days, 2);
            }
            match current.checked_add_days(1) {
                None => {
                    return None;
                },
                Some(next) => {
                    if self.matches_date(next) {
                        return Some(DateTime::new(next, next_time));
                    }
                    current = next;
                },
            }
            left -= 1;
        }
        None
    }
}

/// Collects the rules of an [`Interval`], axis by axis. An axis that was not
/// set gets the rule `All`.
#[derive(Debug)]
pub struct IntervalBuilder {
    minutes: Option<Specifier<u32>>,
    hours: Option<Specifier<u32>>,
    weekdays: Option<Specifier<Weekday>>,
    monthdays: Option<Specifier<u32>>,
    weeks: Option<Specifier<u32>>,
    months: Option<Specifier<Month>>,
}

/// Why an [`IntervalBuilder`] could not build.
#[derive(Debug, PartialEq, Eq)]
pub enum IntervalBuilderError {
    /// A field without a default was not set.
    UninitializedField(String),
    /// The fields do not go together.
    ValidationError(String),
}

/// What a builder holds for one axis: the specifier that was set, or else the
/// rule `All` over the range `[lower, upper]`.
pub open spec fn set_or_all<T: Ordinal>(
    held: Option<Specifier<T>>,
    lower: int,
    upper: int,
) -> SpecifierView {
    match held {
        Some(specifier) => specifier@,
        None => SpecifierView { lower, upper, rule: Rule::All },
    }
}

/// `v` is `given` made normal for the range `[lower, upper]`.
pub open spec fn holds_rule(v: SpecifierView, given: Rule, lower: int, upper: int) -> bool {
    has_range(v, lower, upper) && v.rule.normal_form_of(given, lower, upper)
}

impl View for IntervalBuilder {
    type V = IntervalView;

    /// The interval that `build` gives.
    closed spec fn view(&self) -> IntervalView {
        IntervalView {
            minutes: set_or_all(self.minutes, 0, 59),
            hours: set_or_all(self.hours, 0, 23),
            weekdays: set_or_all(self.weekdays, 0, 6),
            monthdays: set_or_all(self.monthdays, 0, 31),
            weeks: set_or_all(self.weeks, 0, 52),
            months: set_or_all(self.months, 0, 11),
        }
    }
}

impl Default for IntervalBuilder {
    /// A builder with no axis set: it builds the schedule of every minute.
    fn default() -> (r: IntervalBuilder)
        ensures
            r@ == (IntervalView {
                minutes: SpecifierView { lower: 0, upper: 59, rule: Rule::All },
                hours: SpecifierView { lower: 0, upper: 23, rule: Rule::All },
                weekdays: SpecifierView { lower: 0, upper: 6, rule: Rule::All },
                monthdays: SpecifierView { lower: 0, upper: 31, rule: Rule::All },
                weeks: SpecifierView { lower: 0, upper: 52, rule: Rule::All },
                months: SpecifierView { lower: 0, upper: 11, rule: Rule::All },
            }),
            r@.valid(),
    {
        IntervalBuilder {
            minutes: None,
            hours: None,
            weekdays: None,
            monthdays: None,
            weeks: None,
            months: None,
        }
    }
}

impl IntervalBuilder {
    /// Sets the rule of the minutes, over the range 0-59.
    pub fn minutes(&mut self, spec_kind: SpecifierKind) -> (r: &mut Self)
        ensures
            holds_rule(r@.minutes, spec_kind@, 0, 59),
            r@ == (IntervalView { minutes: r@.minutes, ..old(self)@ }),
            *final(self) == *final(r),
    {
        self.minutes = Some(Specifier::new(0, 59, spec_kind));
        self
    }

    /// Sets the rule of the hours, over the range 0-23.
    pub fn hours(&mut self, spec_kind: SpecifierKind) -> (r: &mut Self)
        ensures
            holds_rule(r@.hours, spec_kind@, 0, 23),
            r@ == (IntervalView { hours: r@.hours, ..old(self)@ }),
            *final(self) == *final(r),
    {
        self.hours = Some(Specifier::new(0, 23, spec_kind));
        self
    }

    /// Sets the rule of the weekdays, over the range Monday-Sunday.
    pub fn weekdays(&mut self, spec_kind: SpecifierKind) -> (r: &mut Self)
        ensures
            holds_rule(r@.weekdays, spec_kind@, 0, 6),
            r@ == (IntervalView { weekdays: r@.weekdays, ..old(self)@ }),
            *final(self) == *final(r),
    {
        self.weekdays = Some(Specifier::new(Weekday::Monday(), Weekday::Sunday(), spec_kind));
        self
    }

    /// Sets the rule of the days of the month, over the range 0-31.
    pub fn monthdays(&mut self, spec_kind: SpecifierKind) -> (r: &mut Self)
        ensures
            holds_rule(r@.monthdays, spec_kind@, 0, 31),
            r@ == (IntervalView { monthdays: r@.monthdays, ..old(self)@ }),
            *final(self) == *final(r),
    {
        self.monthdays = Some(Specifier::new(0, 31, spec_kind));
        self
    }

    /// Sets the rule of the ISO weeks, over the range 0-52.
    pub fn weeks(&mut self, spec_kind: SpecifierKind) -> (r: &mut Self)
        ensures
            holds_rule(r@.weeks, spec_kind@, 0, 52),
            r@ == (IntervalView { weeks: r@.weeks, ..old(self)@ }),
            *final(self) == *final(r),
    {
        self.weeks = Some(Specifier::new(0, 52, spec_kind));
        self
    }

    /// Sets the rule of the months, over the range January-December.
    pub fn months(&mut self, spec_kind: SpecifierKind) -> (r: &mut Self)
        ensures
            holds_rule(r@.months, spec_kind@, 0, 11),
            r@ == (IntervalView { months: r@.months, ..old(self)@ }),
            *final(self) == *final(r),
    {
        self.months = Some(Specifier::new(Month::January(), Month::December(), spec_kind));
        self
    }

    /// The interval with the rules collected so far. It never fails.
    pub fn build(&self) -> (r: Result<Interval, IntervalBuilderError>)
        ensures
            r matches Ok(interval) && interval@ == self@,
    {
        let minutes = match &self.minutes {
            Some(specifier) => specifier.clone(),
            None => Specifier::new(0, 59, SpecifierKind::All),
        };
        let hours = match &self.hours {
            Some(specifier) => specifier.clone(),
            None => Specifier::new(0, 23, SpecifierKind::All),
        };
        let weekdays = match &self.weekdays {
            Some(specifier) => specifier.clone(),
            None => Specifier::new(Weekday::Monday(), Weekday::Sunday(), SpecifierKind::All),
        };
        let monthdays = match &self.monthdays {
            Some(specifier) => specifier.clone(),
            None => Specifier::new(0, 31, SpecifierKind::All),
        };
        let weeks = match &self.weeks {
            Some(specifier) => specifier.clone(),
            None => Specifier::new(0, 52, SpecifierKind::All),
        };
        let months = match &self.months {
            Some(specifier) => specifier.clone(),
            None => Specifier::new(Month::January(), Month::December(), SpecifierKind::All),
        };
        Ok(Interval { minutes, hours, weekdays, monthdays, weeks, months })
    }
}

} // verus!
