use backupper::calendar::{Date, DateTime};
use backupper::interval::{Interval, IntervalBuilder};
use backupper::months::Month;
use backupper::profile_config::ProfileConfig;
use backupper::profile_id::ProfileId;
use backupper::schedule::{decide, handle_profile, is_scheduled, reschedule, Step};
use backupper::specifier::SpecifierKind;
use chrono::{Datelike, Duration, NaiveDateTime, Timelike};

fn from_chrono(datetime: NaiveDateTime) -> DateTime {
    Date::from_ymd_opt(datetime.year(), datetime.month(), datetime.day())
        .unwrap()
        .and_hms_opt(datetime.hour(), datetime.minute(), datetime.second())
        .unwrap()
}

fn at(year: i32, month: u32, day: u32, hour: u32, minute: u32, second: u32) -> DateTime {
    Date::from_ymd_opt(year, month, day).unwrap().and_hms_opt(hour, minute, second).unwrap()
}

fn dummy_profile_config(interval: Interval) -> ProfileConfig {
    ProfileConfig::new(
        String::from(""),
        ProfileId::from_u128(7),
        String::new(),
        vec![],
        vec![],
        vec![],
        vec![],
        interval,
        from_chrono(chrono::Local::now().naive_local()),
    )
}

#[test]
fn forced_not_scheduled_yet() {
    let mut profile_config = dummy_profile_config(IntervalBuilder::default().build().unwrap());
    profile_config.next_backup = from_chrono(
        NaiveDateTime::parse_from_str("3000-12-31 23:59", "%Y-%m-%d %H:%M").unwrap(),
    );
    let now = from_chrono(chrono::Local::now().naive_local());

    assert_eq!(is_scheduled(&profile_config, true, now), (true, true));
}

#[test]
fn forced_missed_next_backup() {
    let mut profile_config = dummy_profile_config(IntervalBuilder::default().build().unwrap());
    profile_config.next_backup = from_chrono(
        NaiveDateTime::parse_from_str("2000-12-31 23:59", "%Y-%m-%d %H:%M").unwrap(),
    );
    let now = from_chrono(chrono::Local::now().naive_local());

    assert_eq!(is_scheduled(&profile_config, true, now), (true, true));
}

#[test]
fn not_scheduled_yet() {
    let mut profile_config = dummy_profile_config(IntervalBuilder::default().build().unwrap());
    profile_config.next_backup = from_chrono(
        NaiveDateTime::parse_from_str("3000-12-31 23:59", "%Y-%m-%d %H:%M").unwrap(),
    );
    let now = from_chrono(chrono::Local::now().naive_local());

    assert_eq!(is_scheduled(&profile_config, false, now), (false, false));
}

#[test]
fn missed_only_next_backup_no_match() {
    let mut profile_config = dummy_profile_config(
        IntervalBuilder::default().minutes(SpecifierKind::Nothing).build().unwrap(),
    );
    let now = chrono::Local::now().naive_local();
    profile_config.next_backup = from_chrono(now.checked_sub_signed(Duration::hours(1)).unwrap());

    assert_eq!(is_scheduled(&profile_config, false, from_chrono(now)), (true, false));
}

#[test]
fn missed_only_next_backup_match() {
    let mut profile_config = dummy_profile_config(
        IntervalBuilder::default()
            .minutes(SpecifierKind::First)
            .hours(SpecifierKind::First)
            .build()
            .unwrap(),
    );

    let now = chrono::Local::now().naive_local();
    let morning = now
        .with_nanosecond(0)
        .unwrap()
        .with_second(0)
        .unwrap()
        .with_minute(0)
        .unwrap()
        .with_hour(0)
        .unwrap();
    profile_config.next_backup = from_chrono(morning);
    assert_eq!(is_scheduled(&profile_config, false, from_chrono(now)), (true, true));
}

#[test]
fn missed_both_both_match() {
    // matches every whole hour
    let mut profile_config = dummy_profile_config(
        IntervalBuilder::default().minutes(SpecifierKind::First).build().unwrap(),
    );

    let now = chrono::Local::now().naive_local();
    let five_hours_ago = now
        .checked_sub_signed(Duration::hours(5))
        .unwrap()
        .with_nanosecond(0)
        .unwrap()
        .with_second(0)
        .unwrap()
        .with_minute(0)
        .unwrap();
    profile_config.next_backup = from_chrono(five_hours_ago);

    assert_eq!(is_scheduled(&profile_config, false, from_chrono(now)), (true, true));
}

#[test]
fn missed_both_only_scheduled_matches() {
    // matches every whole hour
    let mut profile_config = dummy_profile_config(
        IntervalBuilder::default().minutes(SpecifierKind::First).build().unwrap(),
    );

    let now = chrono::Local::now().naive_local();
    profile_config.next_backup = from_chrono(now.checked_sub_signed(Duration::hours(5)).unwrap());

    // The instant that the schedule gives after `now` has not passed, so an
    // archive is due only if `next_backup` itself is on a whole hour.
    assert_eq!(
        is_scheduled(&profile_config, false, from_chrono(now)),
        (true, now.minute() == 0)
    );
}

#[test]
fn missed_both_only_next_backup_matches() {
    // matches every feb 29th
    let mut profile_config = dummy_profile_config(
        IntervalBuilder::default()
            .minutes(SpecifierKind::First)
            .hours(SpecifierKind::First)
            .monthdays(SpecifierKind::Nth(28)) // 28 because we start counting with 0
            .months(SpecifierKind::Nth(Month::February().into()))
            .build()
            .unwrap(),
    );

    let feb_29th_2004 =
        NaiveDateTime::parse_from_str("2004-02-29 00:00", "%Y-%m-%d %H:%M").unwrap();
    profile_config.next_backup = from_chrono(feb_29th_2004);
    let now = from_chrono(chrono::Local::now().naive_local());

    assert_eq!(is_scheduled(&profile_config, false, now), (true, true));
}

#[test]
fn missed_both_only_none_matches() {
    // matches every feb 29th
    let mut profile_config = dummy_profile_config(
        IntervalBuilder::default()
            .minutes(SpecifierKind::First)
            .hours(SpecifierKind::First)
            .monthdays(SpecifierKind::Nth(28))
            .months(SpecifierKind::Nth(Month::February().into()))
            .build()
            .unwrap(),
    );

    let apr_1st_2004 = NaiveDateTime::parse_from_str("2004-03-1 00:00", "%Y-%m-%d %H:%M").unwrap();
    profile_config.next_backup = from_chrono(apr_1st_2004);
    let now = from_chrono(chrono::Local::now().naive_local());

    assert_eq!(is_scheduled(&profile_config, false, now), (true, false));
}

#[test]
fn decision_table_rows() {
    // forced
    for bits in 0..16u32 {
        let (a, b, c, d) = (bits & 1 != 0, bits & 2 != 0, bits & 4 != 0, bits & 8 != 0);
        assert_eq!(decide(true, a, b, c, d), (true, true));
        // not due
        assert_eq!(decide(false, false, b, c, d), (false, false));
    }
    // due, next_backup matches
    assert_eq!(decide(false, true, true, false, false), (true, true));
    // due, scheduled was skipped and matches
    assert_eq!(decide(false, true, false, true, true), (true, true));
    // due, scheduled matches but was not skipped
    assert_eq!(decide(false, true, false, false, true), (true, false));
    // due, scheduled was skipped but does not match
    assert_eq!(decide(false, true, false, true, false), (true, false));
    assert_eq!(decide(false, true, false, false, false), (true, false));
}

#[test]
fn missed_window_without_current_match() {
    let interval = IntervalBuilder::default().minutes(SpecifierKind::Nothing).build().unwrap();
    let mut profile = dummy_profile_config(interval);
    let now = at(2024, 6, 1, 14, 7, 30);
    profile.next_backup = at(2024, 6, 1, 13, 7, 30);
    assert_eq!(is_scheduled(&profile, false, now), (true, false));
}

#[test]
fn forced_even_when_not_yet_due() {
    let mut profile = dummy_profile_config(IntervalBuilder::default().build().unwrap());
    profile.next_backup = at(3000, 12, 31, 23, 59, 0);
    assert_eq!(is_scheduled(&profile, true, at(2024, 6, 1, 14, 7, 30)), (true, true));
}

#[test]
fn due_exactly_at_next_backup() {
    let interval = IntervalBuilder::default().minutes(SpecifierKind::Nth(30)).build().unwrap();
    let mut profile = dummy_profile_config(interval);
    profile.next_backup = at(2024, 6, 1, 14, 30, 0);
    assert_eq!(is_scheduled(&profile, false, at(2024, 6, 1, 14, 30, 0)), (true, true));
    assert_eq!(is_scheduled(&profile, false, at(2024, 6, 1, 14, 29, 59)), (false, false));
}

#[test]
fn handle_runs_archive_then_persists_then_registers() {
    let interval = IntervalBuilder::default().minutes(SpecifierKind::Nth(30)).build().unwrap();
    let mut profile = dummy_profile_config(interval);
    profile.next_backup = at(2024, 6, 1, 14, 30, 0);
    let now = at(2024, 6, 1, 14, 31, 12);
    let steps = handle_profile(&mut profile, false, now);
    let next = at(2024, 6, 1, 15, 30, 0);
    assert_eq!(steps, vec![Step::ProduceArchive, Step::Persist, Step::Register(next)]);
    assert_eq!(profile.next_backup, next);
    assert!(now < profile.next_backup);
}

#[test]
fn handle_before_due_changes_nothing() {
    let interval = IntervalBuilder::default().minutes(SpecifierKind::Nth(30)).build().unwrap();
    let mut profile = dummy_profile_config(interval);
    let due = at(2024, 6, 1, 14, 30, 0);
    profile.next_backup = due;
    let now = at(2024, 6, 1, 14, 10, 0);
    let steps = handle_profile(&mut profile, false, now);
    assert_eq!(steps, vec![Step::Persist, Step::Register(due)]);
    assert_eq!(profile.next_backup, due);
    assert!(now < profile.next_backup);
}

#[test]
fn handle_without_match_falls_back_one_year() {
    let interval = IntervalBuilder::default().minutes(SpecifierKind::Nothing).build().unwrap();
    let mut profile = dummy_profile_config(interval);
    profile.next_backup = at(2023, 3, 1, 8, 15, 20);
    let now = at(2024, 6, 1, 14, 10, 0);
    let steps = handle_profile(&mut profile, false, now);
    let fallback = at(2024, 2, 29, 8, 15, 20);
    assert_eq!(steps, vec![Step::Persist, Step::Register(fallback)]);
    assert_eq!(profile.next_backup, fallback);
}

#[test]
fn handle_forced_moves_next_backup_past_now() {
    let mut profile = dummy_profile_config(IntervalBuilder::default().build().unwrap());
    profile.next_backup = at(3000, 12, 31, 23, 59, 0);
    let now = at(2024, 12, 31, 23, 59, 59);
    let steps = handle_profile(&mut profile, true, now);
    let next = at(2025, 1, 1, 0, 0, 0);
    assert_eq!(steps, vec![Step::ProduceArchive, Step::Persist, Step::Register(next)]);
    assert!(now < profile.next_backup);
}

#[test]
fn reschedule_registers_before_it_persists() {
    let interval = Interval::daily(45, 6).unwrap();
    let mut profile = dummy_profile_config(interval);
    profile.next_backup = at(2001, 1, 1, 0, 0, 0);
    let steps = reschedule(&mut profile, at(2024, 6, 1, 6, 45, 0));
    let next = at(2024, 6, 2, 6, 45, 0);
    assert_eq!(steps, vec![Step::Register(next), Step::Persist]);
    assert_eq!(profile.next_backup, next);
}
