use backupper::calendar::{Date, DateTime};
use backupper::date_time_match::DateTimeMatch;
use backupper::interval::{Interval, IntervalBuilder};
use backupper::specifier::{Specifier, SpecifierKind};
use backupper::weekdays::Weekday;

fn kinds() -> Vec<SpecifierKind> {
    vec![
        SpecifierKind::Nothing,
        SpecifierKind::All,
        SpecifierKind::First,
        SpecifierKind::Last,
        SpecifierKind::Nth(0),
        SpecifierKind::Nth(7),
        SpecifierKind::Nth(100),
        SpecifierKind::BackNth(0),
        SpecifierKind::BackNth(3),
        SpecifierKind::BackNth(100),
        SpecifierKind::ExplicitNths(vec![]),
        SpecifierKind::ExplicitNths(vec![9, 0, 4, 4, 77]),
        SpecifierKind::EveryNth(0, 0),
        SpecifierKind::EveryNth(0, 5),
        SpecifierKind::EveryNth(1, 0),
        SpecifierKind::EveryNth(3, 2),
        SpecifierKind::EveryNth(7, 19),
        SpecifierKind::EveryNth(50, 0),
        SpecifierKind::EveryNth(2, 40),
        SpecifierKind::EveryNth(4294967295, 1),
        SpecifierKind::ExplicitList(vec![]),
        SpecifierKind::ExplicitList(vec![30, 12, 12, 29, 5, 200]),
    ]
}

#[test]
fn a_value_is_picked_exactly_if_it_follows_the_value_before_it() {
    for (min, max) in [(10u32, 29u32), (0, 0), (5, 6), (4294967290, 4294967295)] {
        for kind in kinds() {
            let spec = Specifier::new(min, max, kind.clone());
            for x in min..=max {
                let prev = if x == min { max } else { x - 1 };
                assert_eq!(
                    spec.matches(x),
                    spec.cyclic_next(prev) == Some(x),
                    "{:?} on [{}, {}] at {}",
                    kind,
                    min,
                    max,
                    x
                );
            }
        }
    }
}

#[test]
fn the_successor_is_the_smallest_picked_value_above() {
    for kind in kinds() {
        let spec = Specifier::new(10u32, 29u32, kind.clone());
        let picked: Vec<u32> = (10..=29).filter(|x| spec.matches(*x)).collect();
        assert_eq!(spec.first_match(), picked.first().copied());
        for x in 10..=29u32 {
            let expected = picked.iter().find(|y| **y > x).or(picked.first()).copied();
            assert_eq!(spec.cyclic_next(x), expected, "{:?} at {}", kind, x);
        }
        assert_eq!(spec.cyclic_next(9), None);
        assert_eq!(spec.cyclic_next(30), None);
        assert!(!spec.matches(9));
        assert!(!spec.matches(30));
    }
}

#[test]
fn weekdays_are_picked_like_numbers() {
    let spec = Specifier::new(Weekday::Sunday(), Weekday::Tuesday(), SpecifierKind::EveryNth(2, 0));
    assert_eq!(spec.min(), Weekday::Tuesday());
    assert_eq!(spec.max(), Weekday::Sunday());
    assert_eq!(spec.range_len(), 6);
    assert!(!spec.is_in_range(Weekday::Monday()));
    assert!(!spec.matches(Weekday::Monday()));
    assert_eq!(spec.cyclic_next(Weekday::Monday()), None);
    assert!(spec.matches(Weekday::Tuesday()));
    assert!(spec.matches(Weekday::Thursday()));
    assert!(spec.matches(Weekday::Saturday()));
    assert!(!spec.matches(Weekday::Sunday()));
    assert_eq!(spec.cyclic_next(Weekday::Saturday()), Some(Weekday::Tuesday()));
    assert_eq!(spec.cyclic_next(Weekday::Wednesday()), Some(Weekday::Thursday()));
    assert_eq!(spec.first_match(), Some(Weekday::Tuesday()));
    assert_eq!(Weekday::Monday().yesterday(), Weekday::Sunday());
    assert_eq!(Weekday::Thursday().yesterday(), Weekday::Wednesday());
}

#[test]
fn specifiers_compare_and_copy() {
    let a = Specifier::new(0u32, 59u32, SpecifierKind::ExplicitList(vec![5, 3, 3]));
    let b = Specifier::new(59u32, 0u32, SpecifierKind::ExplicitList(vec![3, 5, 70]));
    assert!(a.same_as(&b));
    assert!(a.same_as(&a.clone()));
    assert_eq!(a.clone(), b);
    assert!(!a.same_as(&Specifier::new(0u32, 58u32, SpecifierKind::ExplicitList(vec![3, 5]))));
    assert!(!a.same_as(&Specifier::new(0u32, 59u32, SpecifierKind::ExplicitNths(vec![3, 5]))));
    assert!(SpecifierKind::EveryNth(1, 2).same_as(&SpecifierKind::EveryNth(1, 2)));
    assert!(!SpecifierKind::EveryNth(1, 2).same_as(&SpecifierKind::EveryNth(2, 1)));
    assert!(SpecifierKind::All.is_all());
    assert!(!SpecifierKind::First.is_all());
    assert!(SpecifierKind::Nothing.is_nothing());
    assert!(!SpecifierKind::All.is_nothing());
}

fn intervals() -> Vec<Interval> {
    vec![
        IntervalBuilder::default().build().unwrap(),
        IntervalBuilder::default().minutes(SpecifierKind::EveryNth(10, 0)).build().unwrap(),
        IntervalBuilder::default()
            .minutes(SpecifierKind::Nth(15))
            .hours(SpecifierKind::ExplicitNths(vec![0, 6, 12, 18]))
            .build()
            .unwrap(),
        IntervalBuilder::default()
            .minutes(SpecifierKind::First)
            .hours(SpecifierKind::Last)
            .weekdays(SpecifierKind::ExplicitNths(vec![5, 6]))
            .monthdays(SpecifierKind::ExplicitNths(vec![0, 14]))
            .build()
            .unwrap(),
        IntervalBuilder::default()
            .monthdays(SpecifierKind::Nth(28))
            .months(SpecifierKind::Nth(1))
            .build()
            .unwrap(),
        IntervalBuilder::default()
            .minutes(SpecifierKind::Last)
            .weeks(SpecifierKind::EveryNth(2, 1))
            .weekdays(SpecifierKind::First)
            .build()
            .unwrap(),
        IntervalBuilder::default().hours(SpecifierKind::Nothing).build().unwrap(),
        IntervalBuilder::default().monthdays(SpecifierKind::Last).build().unwrap(),
        Interval::daily(59, 23).unwrap(),
    ]
}

fn instants() -> Vec<DateTime> {
    let at = |y, mo, d, h, mi, s| Date::from_ymd_opt(y, mo, d).unwrap().and_hms_opt(h, mi, s).unwrap();
    vec![
        at(2020, 1, 5, 20, 55, 36),
        at(2021, 4, 8, 0, 0, 0),
        at(2023, 12, 31, 23, 59, 59),
        at(2024, 2, 28, 23, 59, 0),
        at(2024, 2, 29, 12, 15, 0),
        at(2024, 6, 1, 14, 7, 30),
        at(1999, 12, 31, 18, 15, 1),
        at(262142, 12, 31, 23, 58, 0),
        at(262142, 12, 31, 23, 59, 0),
        at(262142, 1, 1, 0, 0, 0),
    ]
}

#[test]
fn the_next_instant_is_later_and_in_the_schedule() {
    for interval in intervals() {
        for instant in instants() {
            if let Some(next) = interval.next_datetime(instant) {
                assert!(instant < next);
                assert!(instant.is_before(&next));
                assert_eq!(interval.matches_datetime(next), DateTimeMatch::Matched);
                assert_eq!(next.time().second(), 0);
                assert!(interval.matches_date(next.date()));
                assert!(interval.matches_time(next.time()));
            }
        }
    }
}

#[test]
fn no_instant_of_the_schedule_is_passed_over() {
    // Minute by minute for a day and a half, then day by day.
    let interval = IntervalBuilder::default()
        .minutes(SpecifierKind::EveryNth(25, 5))
        .hours(SpecifierKind::ExplicitList(vec![3, 22]))
        .weekdays(SpecifierKind::ExplicitNths(vec![1, 2]))
        .build()
        .unwrap();
    let start = Date::from_ymd_opt(2024, 6, 3).unwrap();
    let mut stamps = vec![];
    for day in 0..9u64 {
        let date = start.checked_add_days(day).unwrap();
        for hour in 0..24 {
            for minute in 0..60 {
                stamps.push(date.and_hms_opt(hour, minute, 0).unwrap());
            }
        }
    }
    let mut expected = interval.next_datetime(*stamps.last().unwrap());
    assert!(expected.is_some());
    let mut seen = 0;
    for instant in stamps.iter().rev() {
        assert_eq!(interval.next_datetime(*instant), expected, "at {:?}", instant);
        let with_seconds =
            instant.date().and_hms_opt(instant.time().hour(), instant.time().minute(), 42);
        assert_eq!(interval.next_datetime(with_seconds.unwrap()), expected);
        if interval.matches_datetime(*instant) == DateTimeMatch::Matched {
            expected = Some(*instant);
            seen += 1;
        }
    }
    // Tuesdays and Wednesdays at 3:05, 3:30, 3:55, 22:05, 22:30 and 22:55
    assert_eq!(seen, 2 * 6 + 1 * 6);
}

#[test]
fn daily_schedules() {
    let daily = Interval::daily(30, 12).unwrap();
    assert!(daily.validate().is_ok());
    assert!(!daily.has_none_specifier());
    assert_eq!(daily.minutes.kind(), &SpecifierKind::Nth(30));
    assert_eq!(daily.hours.kind(), &SpecifierKind::Nth(12));
    assert_eq!(
        Interval::daily(60, 12).err(),
        Some(String::from("Expect 'minute' to be in range 0..=59. Got 60"))
    );
    assert_eq!(
        Interval::daily(0, 24).err(),
        Some(String::from("Expect 'hour' to be in range 0..=23. Got 24"))
    );
    assert_eq!(
        Interval::daily(100, 100).err(),
        Some(String::from("Expect 'minute' to be in range 0..=59. Got 100"))
    );
    assert!(daily.same_as(&Interval::daily(30, 12).unwrap()));
    assert!(!daily.same_as(&Interval::daily(30, 13).unwrap()));
}

#[test]
fn validation_reports() {
    let mut interval = IntervalBuilder::default().build().unwrap();
    interval.weekdays = Specifier::new(Weekday::Wednesday(), Weekday::Sunday(), SpecifierKind::All);
    assert_eq!(
        interval.validate().err(),
        Some(String::from(
            "Weekdays are not in range Weekday { day: 0 }..=Weekday { day: 6 }. Got Weekday { day: 2 }..=Weekday { day: 6 }"
        ))
    );
    interval.minutes = Specifier::new(200, 18, SpecifierKind::All);
    assert_eq!(
        interval.validate().err(),
        Some(String::from("Minutes are not in range 0..=59. Got 18..=200"))
    );
}

#[test]
fn either_weekday_or_monthday_once_both_are_set() {
    let d = |y, m, day| Date::from_ymd_opt(y, m, day).unwrap();
    // both set: one is enough (2023-10-13 is a Friday)
    let either = IntervalBuilder::default()
        .weekdays(SpecifierKind::Nth(0))
        .monthdays(SpecifierKind::Nth(12))
        .build()
        .unwrap();
    assert!(either.matches_date(d(2023, 10, 13)));
    assert!(either.matches_date(d(2023, 10, 16)));
    assert!(!either.matches_date(d(2023, 10, 17)));
    // only one set: it decides
    let mondays = IntervalBuilder::default().weekdays(SpecifierKind::Nth(0)).build().unwrap();
    assert!(!mondays.matches_date(d(2023, 10, 13)));
    assert!(mondays.matches_date(d(2023, 10, 16)));
    let thirteenth = IntervalBuilder::default().monthdays(SpecifierKind::Nth(12)).build().unwrap();
    assert!(thirteenth.matches_date(d(2023, 10, 13)));
    assert!(!thirteenth.matches_date(d(2023, 10, 16)));
    // a rule that picks nothing counts as set
    let never_or_13th = IntervalBuilder::default()
        .weekdays(SpecifierKind::Nothing)
        .monthdays(SpecifierKind::Nth(12))
        .build()
        .unwrap();
    assert!(never_or_13th.matches_date(d(2023, 10, 13)));
    let never = IntervalBuilder::default().weekdays(SpecifierKind::Nothing).build().unwrap();
    assert!(!never.matches_date(d(2023, 10, 13)));
}
