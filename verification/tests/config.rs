use backupper::calendar::Date;
use backupper::config::{
    is_profile_file, load_general_config, matches_parsed, matches_selection, matches_specifier,
    select_profiles, valid_dir_path, Found, GeneralConfig, ProfileSpecifier, GENERAL_CONFIG_PATH,
};
use backupper::interval::IntervalBuilder;
use backupper::profile_config::ProfileConfig;
use backupper::profile_id::ProfileId;

const FIRST: &str = "6f41ec8a-da22-4e77-9a9c-50d18556375f";
const SECOND: &str = "001a828a-30ca-4b12-9756-6ce9696ac868";

fn profile(name: &str, id: &str) -> ProfileConfig {
    ProfileConfig::new(
        String::from(name),
        ProfileId::parse_str(id).unwrap(),
        String::from("/backup"),
        vec![],
        vec![],
        vec![],
        vec![],
        IntervalBuilder::default().build().unwrap(),
        Date::from_ymd_opt(2024, 6, 1).unwrap().and_hms_opt(0, 0, 0).unwrap(),
    )
}

struct MockProfileSpecifier {
    name: Option<String>,
    uuid: Option<String>,
}

impl ProfileSpecifier for MockProfileSpecifier {
    fn name(&self) -> Option<&str> {
        self.name.as_ref().map(|name| name.as_str())
    }

    fn uuid(&self) -> Option<&str> {
        self.uuid.as_ref().map(|uuid| uuid.as_str())
    }
}

#[test]
fn selection_by_name_and_identifier() {
    let p = profile("Hutzi", FIRST);
    assert!(matches_selection(&p, None, None));
    assert!(matches_selection(&p, Some("Hutzi"), None));
    assert!(!matches_selection(&p, Some("hutzi"), None));
    assert!(matches_selection(&p, None, Some(FIRST)));
    assert!(!matches_selection(&p, None, Some(SECOND)));
    assert!(matches_selection(&p, Some("Hutzi"), Some(FIRST)));
    assert!(!matches_selection(&p, Some("Hutzi"), Some(SECOND)));
    assert!(!matches_selection(&p, Some("Other"), Some(FIRST)));
}

#[test]
fn an_identifier_that_is_none_leaves_nothing_out() {
    let p = profile("Hutzi", FIRST);
    assert!(matches_selection(&p, None, Some("not an identifier")));
    assert!(!matches_selection(&p, Some("Other"), Some("not an identifier")));
    assert!(matches_parsed(&p, None, None));
    assert!(!matches_parsed(&p, None, Some(ProfileId::from_u128(3))));
}

#[test]
fn specifiers() {
    let by_name = MockProfileSpecifier { name: Some(String::from("Hutzi")), uuid: None };
    let by_id = MockProfileSpecifier { name: None, uuid: Some(String::from(SECOND)) };
    assert!(matches_specifier(Some(profile("Hutzi", FIRST)), &by_name).is_some());
    assert!(matches_specifier(Some(profile("Fuschi", FIRST)), &by_name).is_none());
    assert!(matches_specifier(Some(profile("Hutzi", FIRST)), &by_id).is_none());
    assert_eq!(
        matches_specifier(Some(profile("Fuschi", SECOND)), &by_id).map(|p| p.name),
        Some(String::from("Fuschi"))
    );
    assert!(matches_specifier(None, &by_name).is_none());
}

fn loaded() -> Vec<Result<ProfileConfig, String>> {
    vec![
        Ok(profile("Hutzi", FIRST)),
        Err(String::from("bad json")),
        Ok(profile("Fuschi", SECOND)),
        Err(String::from("worse json")),
        Ok(profile("Hutzi", SECOND)),
    ]
}

fn names(profiles: &Vec<ProfileConfig>) -> Vec<&str> {
    profiles.iter().map(|p| p.name.as_str()).collect()
}

#[test]
fn lenient_selection_passes_over_failures() {
    let all = select_profiles(loaded(), false, None, None).unwrap();
    assert_eq!(names(&all), vec!["Hutzi", "Fuschi", "Hutzi"]);
    let hutzis = select_profiles(loaded(), false, Some("Hutzi"), None).unwrap();
    assert_eq!(hutzis.len(), 2);
    let second = select_profiles(loaded(), false, None, Some(SECOND)).unwrap();
    assert_eq!(names(&second), vec!["Fuschi", "Hutzi"]);
    let one = select_profiles(loaded(), false, Some("Hutzi"), Some(SECOND)).unwrap();
    assert_eq!(one.len(), 1);
    assert!(select_profiles(vec![], false, None, None).unwrap().is_empty());
}

#[test]
fn strict_selection_fails_with_the_first_failure() {
    assert_eq!(
        select_profiles(loaded(), true, None, None).err(),
        Some(String::from("bad json"))
    );
    let fine = vec![Ok(profile("Hutzi", FIRST)), Ok(profile("Fuschi", SECOND))];
    assert_eq!(select_profiles(fine, true, Some("Fuschi"), None).unwrap().len(), 1);
}

#[test]
fn profile_files() {
    assert!(is_profile_file("6f41ec8a-da22-4e77-9a9c-50d18556375f.json"));
    assert!(is_profile_file("a.json"));
    assert!(!is_profile_file(".json"));
    assert!(!is_profile_file("a.json.bak"));
    assert!(!is_profile_file("a.JSON"));
    assert!(!is_profile_file("json"));
    assert!(!is_profile_file(""));
}

#[test]
fn directories() {
    assert_eq!(valid_dir_path("./test_dir", Found::Directory), Ok(()));
    assert_eq!(
        valid_dir_path("./hfgjdish/fhdjis", Found::Missing),
        Err(String::from("Directory ./hfgjdish/fhdjis doesn't exist!"))
    );
    assert_eq!(
        valid_dir_path("./Cargo.toml", Found::File),
        Err(String::from("Path ./Cargo.toml doesn't point to directory!"))
    );
    assert!(valid_dir_path("/dev/null", Found::Other).is_err());
}

#[test]
fn general_config_paths() {
    assert_eq!(GENERAL_CONFIG_PATH, "./general_config.json");
    assert_eq!(
        load_general_config(None, Found::File),
        Ok(String::from("./general_config.json"))
    );
    assert_eq!(load_general_config(Some("/etc/b.json"), Found::File), Ok(String::from("/etc/b.json")));
    assert_eq!(
        load_general_config(None, Found::Missing),
        Err(String::from("General config file doesn't exist!"))
    );
    assert_eq!(
        load_general_config(Some("/etc"), Found::Directory),
        Err(String::from("Path to general config file doesn't point to a file!"))
    );
    let config = GeneralConfig { profile_configs: String::from("/var/profiles") };
    assert_eq!(config.profile_configs, "/var/profiles");
}
