use backupper::calendar::{leap_year, month_length, Date, DateTime, Time, MAX_YEAR, MIN_YEAR};

fn date(year: i32, month: u32, day: u32) -> Date {
    Date::from_ymd_opt(year, month, day).unwrap()
}

#[test]
fn dates_of_the_calendar() {
    assert!(Date::from_ymd_opt(2024, 2, 29).is_some());
    assert!(Date::from_ymd_opt(2023, 2, 29).is_none());
    assert!(Date::from_ymd_opt(1900, 2, 29).is_none());
    assert!(Date::from_ymd_opt(2000, 2, 29).is_some());
    assert!(Date::from_ymd_opt(2023, 4, 31).is_none());
    assert!(Date::from_ymd_opt(2023, 0, 1).is_none());
    assert!(Date::from_ymd_opt(2023, 13, 1).is_none());
    assert!(Date::from_ymd_opt(2023, 1, 0).is_none());
    assert!(Date::from_ymd_opt(MAX_YEAR, 12, 31).is_some());
    assert!(Date::from_ymd_opt(MAX_YEAR + 1, 1, 1).is_none());
    assert!(Date::from_ymd_opt(MIN_YEAR, 1, 1).is_some());
    assert!(Date::from_ymd_opt(MIN_YEAR - 1, 12, 31).is_none());
}

#[test]
fn dates_agree_with_chrono() {
    for year in [-262144, -262143, -400, -1, 0, 1, 1900, 2000, 2023, 2024, 262142, 262143] {
        for month in 0..14 {
            for day in 0..33 {
                assert_eq!(
                    Date::from_ymd_opt(year, month, day).is_some(),
                    chrono::NaiveDate::from_ymd_opt(year, month, day).is_some()
                );
            }
        }
    }
}

#[test]
fn year_bounds_are_those_of_chrono() {
    assert_eq!(chrono::Datelike::year(&chrono::NaiveDate::MIN), MIN_YEAR);
    assert_eq!(chrono::Datelike::year(&chrono::NaiveDate::MAX), MAX_YEAR);
}

#[test]
fn parts_of_a_date() {
    let d = date(2024, 6, 1);
    assert_eq!((d.year(), d.month(), d.day()), (2024, 6, 1));
    assert_eq!((d.month0(), d.day0()), (5, 0));
    // 2024-06-01 is a Saturday in the 22nd ISO week
    assert_eq!(d.weekday_from_monday(), 5);
    assert_eq!(d.iso_week0(), 21);
    // 2023-01-01 is a Sunday of the last week of 2022
    assert_eq!(date(2023, 1, 1).weekday_from_monday(), 6);
    assert_eq!(date(2023, 1, 1).iso_week0(), 51);
    assert_eq!(date(2023, 1, 2).iso_week0(), 0);
    assert_eq!(date(2020, 12, 31).iso_week0(), 52);
}

#[test]
fn adding_days() {
    assert_eq!(date(2024, 2, 28).checked_add_days(1), Some(date(2024, 2, 29)));
    assert_eq!(date(2023, 2, 28).checked_add_days(1), Some(date(2023, 3, 1)));
    assert_eq!(date(2023, 12, 31).checked_add_days(1), Some(date(2024, 1, 1)));
    assert_eq!(date(2023, 4, 30).checked_add_days(1), Some(date(2023, 5, 1)));
    assert_eq!(date(2023, 3, 1).checked_add_days(365), Some(date(2024, 2, 29)));
    assert_eq!(date(2024, 3, 1).checked_add_days(365), Some(date(2025, 3, 1)));
    assert_eq!(date(2024, 3, 1).checked_add_days(0), Some(date(2024, 3, 1)));
    assert_eq!(date(2000, 1, 1).checked_add_days(146097), Some(date(2400, 1, 1)));
    assert_eq!(date(MAX_YEAR, 12, 31).checked_add_days(1), None);
    assert_eq!(date(MAX_YEAR, 12, 30).checked_add_days(1), Some(date(MAX_YEAR, 12, 31)));
    assert_eq!(date(MAX_YEAR, 1, 1).checked_add_days(365), None);
    assert_eq!(date(2024, 1, 1).checked_add_days(u64::MAX), None);
}

#[test]
fn order_of_dates_and_times() {
    assert!(date(2023, 12, 31).is_before(&date(2024, 1, 1)));
    assert!(date(2024, 1, 31).is_before(&date(2024, 2, 1)));
    assert!(date(2024, 2, 1).is_before(&date(2024, 2, 2)));
    assert!(!date(2024, 2, 2).is_before(&date(2024, 2, 2)));
    assert!(!date(2024, 2, 2).is_before(&date(2023, 12, 31)));
    let t = |h, m, s| Time::from_hms_opt(h, m, s).unwrap();
    assert!(t(1, 59, 59).is_before(&t(2, 0, 0)));
    assert!(t(2, 0, 0).is_before(&t(2, 0, 1)));
    assert!(!t(2, 0, 1).is_before(&t(2, 0, 1)));
    let a = date(2024, 2, 2).and_time(t(23, 59, 59));
    let b = date(2024, 2, 3).and_time(t(0, 0, 0));
    assert!(a.is_before(&b));
    assert!(!b.is_before(&a));
    assert!(!a.is_before(&a));
    assert!(a < b);
    assert!(date(2023, 12, 31) < date(2024, 1, 1));
}

#[test]
fn times_of_day() {
    assert!(Time::from_hms_opt(23, 59, 59).is_some());
    assert!(Time::from_hms_opt(24, 0, 0).is_none());
    assert!(Time::from_hms_opt(0, 60, 0).is_none());
    assert!(Time::from_hms_opt(0, 0, 60).is_none());
    let t = Time::from_hms_opt(7, 8, 9).unwrap();
    assert_eq!((t.hour(), t.minute(), t.second()), (7, 8, 9));
    assert!(date(2024, 1, 1).and_hms_opt(24, 0, 0).is_none());
    let at = date(2024, 1, 1).and_hms_opt(7, 8, 9).unwrap();
    assert_eq!(at, DateTime::new(date(2024, 1, 1), t));
    assert_eq!(at.date(), date(2024, 1, 1));
    assert_eq!(at.time(), t);
    assert_eq!(
        at.checked_add_days(31),
        Some(DateTime::new(date(2024, 2, 1), t))
    );
}

#[test]
fn leap_years_and_months() {
    assert!(leap_year(2024));
    assert!(leap_year(2000));
    assert!(leap_year(0));
    assert!(leap_year(-4));
    assert!(!leap_year(1900));
    assert!(!leap_year(2023));
    assert_eq!(month_length(2024, 2), 29);
    assert_eq!(month_length(2023, 2), 28);
    assert_eq!(month_length(2023, 4), 30);
    assert_eq!(month_length(2023, 12), 31);
}
