//! What holds of the instants a schedule gives.

use vstd::prelude::*;
use crate::calendar::{Hms, Instant, Ymd};
use crate::date_time_match::DateTimeMatch;
use crate::interval::{IntervalView, SEARCH_DAYS};

verus! {

/// Whether the minute `m1` of the hour `h1` comes before the minute `m2` of the
/// hour `h2`.
pub open spec fn minute_before(h1: int, m1: int, h2: int, m2: int) -> bool {
    h1 < h2 || (h1 == h2 && m1 < m2)
}

impl IntervalView {
    /// The date found among the days after `date` is a date of the schedule
    /// and lies after `date`.
    pub proof fn lemma_next_matching_date(self, date: Ymd, tries: nat)
        requires
            date.valid(),
        ensures
            self.next_matching_date(date, tries) matches Some(found) ==> found.valid()
                && date.before(found) && self.matches_date(found),
        decreases tries,
    {
        if tries > 0 {
            date.lemma_next_day();
            if let Some(next) = date.next_day() {
                if !self.matches_date(next) {
                    self.lemma_next_matching_date(next, (tries - 1) as nat);
                }
            }
        }
    }

    /// A time of day that follows another in the schedule is a time of the
    /// schedule, on the minute.
    pub proof fn lemma_cyclic_next_daytime(self, time: Hms)
        requires
            self.wf(),
        ensures
            self.cyclic_next_daytime(time) matches Some(next) ==> next.valid() && next.second == 0
                && self.matches_time(next),
    {
        self.minutes.lemma_cyclic_next_matches(time.minute);
        self.minutes.lemma_first_match_from(self.minutes.lower);
        self.hours.lemma_cyclic_next_matches(time.hour);
        self.hours.lemma_first_match_from(time.hour + 1);
        self.hours.lemma_first_match_from(self.hours.lower);
    }

    /// The instant that follows `instant` in the schedule lies after it.
    pub proof fn lemma_next_datetime_is_later(self, instant: Instant)
        requires
            instant.date.valid(),
        ensures
            self.next_datetime(instant) matches Some(next) ==> instant.before(next),
    {
        self.lemma_next_matching_date(instant.date, SEARCH_DAYS as nat);
    }

    /// The instant that follows another in the schedule is an instant of the
    /// schedule, on the minute.
    pub proof fn lemma_next_datetime_matches(self, instant: Instant)
        requires
            self.wf(),
            instant.date.valid(),
        ensures
            self.next_datetime(instant) matches Some(next) ==> next.valid() && next.time.second
                == 0 && self.matches_datetime(next) == DateTimeMatch::Matched,
    {
        self.lemma_next_matching_date(instant.date, SEARCH_DAYS as nat);
        self.lemma_cyclic_next_daytime(instant.time);
        self.lemma_cyclic_next_daytime(Hms { hour: 23, minute: 59, second: 59 });
    }

    /// Whether the schedule has the minute `minute` of the hour `hour`.
    pub open spec fn has_time(self, hour: int, minute: int) -> bool {
        self.minutes.matches(minute) && self.hours.matches(hour)
    }

    /// The time of day that follows `time` in a valid schedule is the nearest:
    /// the schedule has no minute between the two. Where it is not later than
    /// `time`, the schedule has no minute later than `time`, and none earlier
    /// than what follows: the first time of the day follows the last. Where
    /// nothing follows, the schedule has no time of day at all.
    pub proof fn lemma_cyclic_next_daytime_is_nearest(self, time: Hms)
        requires
            self.wf(),
            self.valid(),
            time.valid(),
        ensures
            match self.cyclic_next_daytime(time) {
                Some(next) => {
                    &&& self.has_time(next.hour, next.minute)
                    &&& time.before(next) ==> forall|h: int, m: int|
                        minute_before(time.hour, time.minute, h, m) && minute_before(
                            h,
                            m,
                            next.hour,
                            next.minute,
                        ) ==> !#[trigger] self.has_time(h, m)
                    &&& !time.before(next) ==> forall|h: int, m: int|
                        minute_before(time.hour, time.minute, h, m) || minute_before(
                            h,
                            m,
                            next.hour,
                            next.minute,
                        ) ==> !#[trigger] self.has_time(h, m)
                },
                None => forall|h: int, m: int| !#[trigger] self.has_time(h, m),
            },
    {
        self.minutes.lemma_cyclic_next_matches(time.minute);
        self.minutes.lemma_first_match_from(time.minute + 1);
        self.minutes.lemma_first_match_from(self.minutes.lower);
        self.hours.lemma_cyclic_next_matches(time.hour);
        self.hours.lemma_first_match_from(time.hour + 1);
        self.hours.lemma_first_match_from(self.hours.lower);
    }

    /// The first time of day of a valid schedule: the schedule has no minute
    /// before it, and no time of day at all where there is no first.
    pub proof fn lemma_first_daytime_is_first(self)
        requires
            self.wf(),
            self.valid(),
        ensures
            match self.first_daytime() {
                Some(first) => self.has_time(first.hour, first.minute) && forall|h: int, m: int|
                    minute_before(h, m, first.hour, first.minute) ==> !#[trigger] self.has_time(
                        h,
                        m,
                    ),
                None => forall|h: int, m: int| !#[trigger] self.has_time(h, m),
            },
    {
        self.lemma_cyclic_next_daytime_is_nearest(Hms { hour: 23, minute: 59, second: 59 });
        self.lemma_cyclic_next_daytime(Hms { hour: 23, minute: 59, second: 59 });
    }

    /// The date found among the days after `date` is the nearest: it is one of
    /// the `tries` days after `date`, and none of the days before it is a date
    /// of the schedule. Where none is found, none of the `tries` days is one.
    pub proof fn lemma_next_matching_date_is_nearest(self, date: Ymd, tries: nat)
        ensures
            match self.next_matching_date(date, tries) {
                Some(found) => exists|k: nat|
                    0 < k <= tries && #[trigger] date.plus_days(k) == Some(found) && forall|j: nat|
                        0 < j < k ==> ((#[trigger] date.plus_days(j)) matches Some(d)
                            && !self.matches_date(d)),
                None => forall|j: nat|
                    0 < j <= tries ==> ((#[trigger] date.plus_days(j)) matches Some(d)
                        ==> !self.matches_date(d)),
            },
        decreases tries,
    {
        reveal_with_fuel(Ymd::plus_days, 2);
        if tries > 0 {
            if let Some(next) = date.next_day() {
                assert(date.plus_days(1) == Some(next));
                if self.matches_date(next) {
                } else {
                    let rest = (tries - 1) as nat;
                    self.lemma_next_matching_date_is_nearest(next, rest);
                    assert forall|j: nat| j > 0 implies #[trigger] date.plus_days(j)
                        == next.plus_days((j - 1) as nat) by {}
                    match self.next_matching_date(next, rest) {
                        Some(found) => {
                            let k0 = choose|k: nat|
                                0 < k <= rest && #[trigger] next.plus_days(k) == Some(found)
                                    && forall|j: nat|
                                    0 < j < k ==> ((#[trigger] next.plus_days(j)) matches Some(d)
                                        && !self.matches_date(d));
                            let k = k0 + 1;
                            assert(date.plus_days(k) == next.plus_days(k0));
                            assert forall|j: nat| 0 < j < k implies ((
                            #[trigger] date.plus_days(j)) matches Some(d) && !self.matches_date(
                                d,
                            )) by {
                                if j > 1 {
                                    let below = (j - 1) as nat;
                                    assert(date.plus_days(j) == next.plus_days(below));
                                    assert(next.plus_days(below) is Some);
                                }
                            }
                        },
                        None => {
                            assert forall|j: nat| 0 < j <= tries implies ((
                            #[trigger] date.plus_days(j)) matches Some(d) ==> !self.matches_date(
                                d,
                            )) by {
                                if j > 1 {
                                    let below = (j - 1) as nat;
                                    assert(date.plus_days(j) == next.plus_days(below));
                                }
                            }
                        },
                    }
                }
            } else {
                assert forall|j: nat| 0 < j <= tries implies (#[trigger] date.plus_days(j)) is None by {}
            }
        }
    }

    /// The instant that follows `instant` in a valid schedule is the nearest:
    /// no instant on the minute between the two is one of the schedule.
    pub proof fn lemma_next_datetime_is_nearest(self, instant: Instant, between: Instant)
        requires
            self.wf(),
            self.valid(),
            instant.valid(),
            between.valid(),
            between.time.second == 0,
            instant.before(between),
            self.next_datetime(instant) matches Some(next) && between.before(next),
        ensures
            self.matches_datetime(between) != DateTimeMatch::Matched,
    {
        let next = self.next_datetime(instant).unwrap();
        let last = Hms { hour: 23, minute: 59, second: 59 };
        self.lemma_cyclic_next_daytime_is_nearest(instant.time);
        self.lemma_cyclic_next_daytime(instant.time);
        self.lemma_first_daytime_is_first();
        self.lemma_cyclic_next_daytime(last);
        instant.date.lemma_before_or_after(between.date);
        between.date.lemma_before_or_after(next.date);
        let date_matches = self.matches_date(instant.date);
        let same_day = date_matches && instant.time.before(
            self.cyclic_next_daytime(instant.time).unwrap(),
        );
        assert(self.matches_time(between.time) == self.has_time(
            between.time.hour,
            between.time.minute,
        ));
        if !same_day {
            self.lemma_next_matching_date_is_nearest(instant.date, SEARCH_DAYS as nat);
            let k = choose|k: nat|
                0 < k <= SEARCH_DAYS && #[trigger] instant.date.plus_days(k) == Some(next.date)
                    && forall|j: nat|
                    0 < j < k ==> ((#[trigger] instant.date.plus_days(j)) matches Some(d)
                        && !self.matches_date(d));
            if instant.date.before(between.date) && between.date.before(next.date) {
                instant.date.lemma_days_between(k, between.date);
                let j = choose|j: nat|
                    0 < j < k && #[trigger] instant.date.plus_days(j) == Some(between.date);
                assert(!self.matches_date(between.date));
            }
        }
    }

    /// Where nothing follows `instant` in a valid schedule, no instant on the
    /// minute after `instant`, up to 365 days on, is one of the schedule.
    pub proof fn lemma_next_datetime_none(self, instant: Instant, later: Instant, days: nat)
        requires
            self.wf(),
            self.valid(),
            instant.valid(),
            later.valid(),
            later.time.second == 0,
            instant.before(later),
            days <= SEARCH_DAYS,
            instant.date.plus_days(days) == Some(later.date),
            self.next_datetime(instant) is None,
        ensures
            self.matches_datetime(later) != DateTimeMatch::Matched,
    {
        let last = Hms { hour: 23, minute: 59, second: 59 };
        self.lemma_cyclic_next_daytime_is_nearest(instant.time);
        self.lemma_cyclic_next_daytime(instant.time);
        self.lemma_first_daytime_is_first();
        self.lemma_cyclic_next_daytime(last);
        self.lemma_next_matching_date_is_nearest(instant.date, SEARCH_DAYS as nat);
        assert(self.matches_time(later.time) == self.has_time(later.time.hour, later.time.minute));
        if days == 0 {
            assert(instant.date.plus_days(0) == Some(instant.date));
        }
    }
}

} // verus!
