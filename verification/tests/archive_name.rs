use backupper::archive_name::{
    archive_file_name, archive_timestamp, is_profile_archive, parse_stamp,
};
use backupper::calendar::{Date, DateTime};
use backupper::profile_id::ProfileId;

fn at(year: i32, month: u32, day: u32, hour: u32, minute: u32, second: u32) -> DateTime {
    Date::from_ymd_opt(year, month, day).unwrap().and_hms_opt(hour, minute, second).unwrap()
}

fn id() -> ProfileId {
    ProfileId::parse_str("6f41ec8a-da22-4e77-9a9c-50d18556375f").unwrap()
}

#[test]
fn archive_naming() {
    assert_eq!(
        archive_file_name(&id(), &at(2024, 6, 1, 14, 7, 0)).unwrap(),
        "6f41ec8a-da22-4e77-9a9c-50d18556375f_2024-06-01_14-07.zip"
    );
    assert_eq!(
        archive_file_name(&id(), &at(2024, 6, 1, 14, 7, 59)).unwrap(),
        "6f41ec8a-da22-4e77-9a9c-50d18556375f_2024-06-01_14-07.zip"
    );
}

#[test]
fn archive_name_pads_with_zeros() {
    assert_eq!(
        archive_file_name(&ProfileId::from_u128(0), &at(7, 1, 2, 3, 4, 5)).unwrap(),
        "00000000-0000-0000-0000-000000000000_0007-01-02_03-04.zip"
    );
    assert_eq!(
        archive_file_name(&ProfileId::from_u128(0), &at(9999, 12, 31, 23, 59, 0)).unwrap(),
        "00000000-0000-0000-0000-000000000000_9999-12-31_23-59.zip"
    );
}

#[test]
fn archive_name_needs_a_year_of_four_digits() {
    assert!(archive_file_name(&id(), &at(10000, 1, 1, 0, 0, 0)).is_none());
    assert!(archive_file_name(&id(), &at(-1, 12, 31, 0, 0, 0)).is_none());
    assert!(archive_file_name(&id(), &at(0, 1, 1, 0, 0, 0)).is_some());
}

#[test]
fn archive_name_parses_back_to_the_minute() {
    for (instant, cut) in [
        (at(2024, 6, 1, 14, 7, 33), at(2024, 6, 1, 14, 7, 0)),
        (at(2020, 2, 29, 0, 0, 0), at(2020, 2, 29, 0, 0, 0)),
        (at(0, 1, 1, 23, 59, 59), at(0, 1, 1, 23, 59, 0)),
        (at(9999, 12, 31, 12, 30, 1), at(9999, 12, 31, 12, 30, 0)),
    ] {
        let name = archive_file_name(&id(), &instant).unwrap();
        assert!(is_profile_archive(&name, &id()));
        assert_eq!(archive_timestamp(&name, &id()), Some(cut));
    }
}

#[test]
fn stamps() {
    assert_eq!(parse_stamp("2024-06-01_14-07"), Some(at(2024, 6, 1, 14, 7, 0)));
    assert_eq!(parse_stamp("2023-02-29_14-07"), None);
    assert_eq!(parse_stamp("2024-06-01_24-07"), None);
    assert_eq!(parse_stamp("2024-06-01_14-60"), None);
    assert_eq!(parse_stamp("2024-13-01_14-07"), None);
    assert_eq!(parse_stamp("2024-00-01_14-07"), None);
    assert_eq!(parse_stamp("2024-06-01 14-07"), None);
    assert_eq!(parse_stamp("2024-06-01_14:07"), None);
    assert_eq!(parse_stamp("2024-6-1_14-7"), None);
    assert_eq!(parse_stamp("2024-06-01_14-07 "), None);
    assert_eq!(parse_stamp("2o24-06-01_14-07"), None);
    assert_eq!(parse_stamp(""), None);
    assert_eq!(parse_stamp("２０２４-06-01_14-07"), None);
}

#[test]
fn names_of_other_files_give_no_timestamp() {
    let i = id();
    let other = ProfileId::from_u128(5);
    let name = "6f41ec8a-da22-4e77-9a9c-50d18556375f_2024-06-01_14-07.zip";
    assert_eq!(archive_timestamp(name, &i), Some(at(2024, 6, 1, 14, 7, 0)));
    assert_eq!(archive_timestamp(name, &other), None);
    assert_eq!(
        archive_timestamp("6f41ec8a-da22-4e77-9a9c-50d18556375f_2024-06-01_14-07.tar", &i),
        None
    );
    assert_eq!(
        archive_timestamp("6f41ec8a-da22-4e77-9a9c-50d18556375f2024-06-01_14-07.zip", &i),
        None
    );
    assert_eq!(archive_timestamp("6f41ec8a-da22-4e77-9a9c-50d18556375f_.zip", &i), None);
    assert_eq!(archive_timestamp(".zip", &i), None);
    assert_eq!(archive_timestamp("", &i), None);
}

#[test]
fn archives_of_a_profile() {
    let i = id();
    assert!(is_profile_archive("6f41ec8a-da22-4e77-9a9c-50d18556375f_anything.zip", &i));
    assert!(is_profile_archive("6f41ec8a-da22-4e77-9a9c-50d18556375f_.zip", &i));
    assert!(!is_profile_archive("6f41ec8a-da22-4e77-9a9c-50d18556375f.zip", &i));
    assert!(!is_profile_archive("6f41ec8a-da22-4e77-9a9c-50d18556375f_x.zip.part", &i));
    assert!(!is_profile_archive("x6f41ec8a-da22-4e77-9a9c-50d18556375f_x.zip", &i));
}

#[test]
fn identifiers_as_text() {
    let i = id();
    assert_eq!(i.hyphenated(), "6f41ec8a-da22-4e77-9a9c-50d18556375f");
    assert_eq!(i.as_u128(), 0x6f41ec8a_da22_4e77_9a9c_50d18556375f);
    assert_eq!(
        ProfileId::parse_str("6F41EC8ADA224E779A9C50D18556375F").map(|p| p.as_u128()),
        Some(i.as_u128())
    );
    assert!(ProfileId::parse_str("6f41ec8a-da22-4e77-9a9c-50d18556375").is_none());
    assert!(ProfileId::parse_str("").is_none());
    assert!(i.same_as(&ProfileId::from_u128(i.as_u128())));
    assert!(!i.same_as(&ProfileId::from_u128(1)));
}
