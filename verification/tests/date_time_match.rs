use backupper::date_time_match::DateTimeMatch;

#[test]
fn conversion_test() {
    assert_eq!(<DateTimeMatch as Into<bool>>::into(DateTimeMatch::Matched), true);
    assert_eq!(<DateTimeMatch as Into<bool>>::into(DateTimeMatch::DateNotMatched), false);
    assert_eq!(<DateTimeMatch as Into<bool>>::into(DateTimeMatch::TimeNotMatched), false);
}
