use backupper::specifier::{Specifier, SpecifierKind};

#[test]
fn sort_list_kinds() {
    let indices = vec![0, 10, 5, 15, 7, 80, 1];
    let mut sorted = indices.clone();
    sorted.sort_unstable();
    let spec = Specifier::new(0 as u32, 100 as u32, SpecifierKind::ExplicitNths(indices));
    assert_eq!(spec.kind(), &SpecifierKind::ExplicitNths(sorted));

    let values = vec![109, 103, 87, 150, 100];
    let mut sorted = values.clone();
    sorted.sort_unstable();
    let spec = Specifier::new(50 as u32, 200 as u32, SpecifierKind::ExplicitList(values));
    assert_eq!(spec.kind(), &SpecifierKind::ExplicitList(sorted));
}

#[test]
fn dedup_list_kinds() {
    let indices = vec![8, 20, 7, 8, 1, 20, 1, 17];
    let mut dedupped = indices.clone();
    dedupped.sort_unstable();
    dedupped.dedup();
    let spec = Specifier::new(20 as u32, 5000 as u32, SpecifierKind::ExplicitNths(indices));
    assert_eq!(spec.kind(), &SpecifierKind::ExplicitNths(dedupped));

    let values = vec![55, 21, 137, 21, 99, 137, 200];
    let mut dedupped = values.clone();
    dedupped.sort_unstable();
    dedupped.dedup();
    let spec = Specifier::new(20 as u32, 1234 as u32, SpecifierKind::ExplicitList(values));
    assert_eq!(spec.kind(), &SpecifierKind::ExplicitList(dedupped));
}

#[test]
fn filter_out_of_range() {
    let min = 100;
    let max = 133;
    let indices = vec![66, 0, 12, 34, 180, 33, 0, 15];
    let mut dedupped: Vec<u32> = indices
        .clone()
        .into_iter()
        .filter(|index| index <= &(max - min))
        .collect();
    dedupped.sort_unstable();
    dedupped.dedup();
    println!("{:?}", dedupped);
    let spec = Specifier::new(min, max, SpecifierKind::ExplicitNths(indices));
    assert_eq!(spec.kind(), &SpecifierKind::ExplicitNths(dedupped));

    let min = 320;
    let max = 490;
    let values = vec![12, 330, 444, 325, 3000, 490, 6, 400, 570, 320];
    let mut dedupped: Vec<u32> = values
        .clone()
        .into_iter()
        .filter(|value| value <= &max && value >= &min)
        .collect();
    dedupped.sort_unstable();
    dedupped.dedup();
    println!("{:?}", dedupped);
    let spec = Specifier::new(min, max, SpecifierKind::ExplicitList(values));
    assert_eq!(spec.kind(), &SpecifierKind::ExplicitList(dedupped));
}

#[test]
fn no_matches() {
    let spec = Specifier::new(0u32, 100u32, SpecifierKind::Nothing);
    assert!(spec.first_match().is_none());

    let spec = Specifier::new(55u32, 77u32, SpecifierKind::ExplicitList(vec![0, 7, 35]));
    assert!(spec.first_match().is_none());
}

#[test]
fn first_match_is_min() {
    let spec = Specifier::new(0u32, 10u32, SpecifierKind::All);
    assert_eq!(spec.first_match().unwrap(), 0);

    let spec = Specifier::new(4328u32, 9999u32, SpecifierKind::EveryNth(2, 0));
    assert_eq!(spec.first_match().unwrap(), 4328);
}

#[test]
fn first_match_is_max() {
    let spec = Specifier::new(4328u32, 9999u32, SpecifierKind::BackNth(0));
    assert_eq!(spec.first_match().unwrap(), 9999);

    let spec = Specifier::new(12u32, 7000u32, SpecifierKind::ExplicitList(vec![7000]));
    assert_eq!(spec.first_match().unwrap(), 7000);
}

#[test]
fn valid_first_match() {
    let spec = Specifier::new(7u32, 100u32, SpecifierKind::ExplicitList(vec![19, 28, 99]));
    assert_eq!(spec.first_match().unwrap(), 19);
}

#[test]
fn specifier_out_of_range_test() {
    {
        let spec = Specifier::new(0 as u32, 100 as u32, SpecifierKind::Nothing);
        assert_eq!(spec.matches(264), false);
        assert_eq!(spec.matches(400), false);
        assert_eq!(spec.matches(101), false);

        let spec = Specifier::new(25 as u32, 50 as u32, SpecifierKind::Nothing);
        assert_eq!(spec.matches(0), false);
        assert_eq!(spec.matches(19), false);
        assert_eq!(spec.matches(24), false);
        assert_eq!(spec.matches(51), false);
    }
    {
        let spec = Specifier::new(0 as u32, 100 as u32, SpecifierKind::Nothing);
        assert_eq!(spec.cyclic_next(264), None);
        assert_eq!(spec.cyclic_next(400), None);
        assert_eq!(spec.cyclic_next(101), None);

        let spec = Specifier::new(25 as u32, 50 as u32, SpecifierKind::Nothing);
        assert_eq!(spec.cyclic_next(0), None);
        assert_eq!(spec.cyclic_next(19), None);
        assert_eq!(spec.cyclic_next(24), None);
        assert_eq!(spec.cyclic_next(51), None);
    }
}

#[test]
fn specifier_none_test() {
    {
        let a = 17u32;
        let b = 77u32;
        let spec = Specifier::new(a, b, SpecifierKind::Nothing);
        for x in a..=b {
            assert!(!spec.matches(x));
        }
    }
    {
        let spec = Specifier::new(0 as u32, 100 as u32, SpecifierKind::Nothing);
        assert_eq!(spec.cyclic_next(19), None);
        assert_eq!(spec.cyclic_next(5), None);
        assert_eq!(spec.cyclic_next(200), None);
        assert_eq!(spec.cyclic_next(99), None);

        let spec = Specifier::new(200 as u32, 500 as u32, SpecifierKind::Nothing);
        assert_eq!(spec.cyclic_next(385), None);
        assert_eq!(spec.cyclic_next(500), None);
        assert_eq!(spec.cyclic_next(18), None);
        assert_eq!(spec.cyclic_next(45), None);
    }
}

#[test]
fn specifier_all_test() {
    {
        let a = 17u32;
        let b = 77u32;
        let spec = Specifier::new(a, b, SpecifierKind::All);
        for x in a..=b {
            assert!(spec.matches(x));
        }
    }
    {
        let spec = Specifier::new(0 as u32, 10 as u32, SpecifierKind::All);
        for i in 0..=10 {
            assert_eq!(spec.cyclic_next(i), Some((i + 1) % 11));
        }

        let spec = Specifier::new(10 as u32, 100 as u32, SpecifierKind::All);
        for i in 10..100 {
            assert_eq!(spec.cyclic_next(i), Some(i + 1))
        }
        assert_eq!(spec.cyclic_next(100), Some(10));
    }
}

#[test]
fn specifier_first_test() {
    {
        let a = 17u32;
        let b = 77u32;
        let spec = Specifier::new(a, b, SpecifierKind::First);
        assert!(spec.matches(a));
        for x in (a+1)..=b {
            assert!(!spec.matches(x));
        }
    }
    {
        let spec = Specifier::new(0 as u32, 10 as u32, SpecifierKind::First);
        assert_eq!(spec.cyclic_next(0), Some(0));
        assert_eq!(spec.cyclic_next(4), Some(0));
        assert_eq!(spec.cyclic_next(7), Some(0));
        assert_eq!(spec.cyclic_next(10), Some(0));

        let spec = Specifier::new(17 as u32, 4325 as u32, SpecifierKind::First);
        assert_eq!(spec.cyclic_next(453), Some(17));
        assert_eq!(spec.cyclic_next(17), Some(17));
        assert_eq!(spec.cyclic_next(4000), Some(17));
        assert_eq!(spec.cyclic_next(1234), Some(17));
    }
}

#[test]
fn specifier_last_test() {
    {
        let a = 17u32;
        let b = 77u32;
        let spec = Specifier::new(a, b, SpecifierKind::Last);
        assert!(spec.matches(b));
        for x in a..b {
            assert!(!spec.matches(x));
        }
    }
    {
        let spec = Specifier::new(0 as u32, 10 as u32, SpecifierKind::Last);
        assert_eq!(spec.cyclic_next(0), Some(10));
        assert_eq!(spec.cyclic_next(4), Some(10));
        assert_eq!(spec.cyclic_next(7), Some(10));
        assert_eq!(spec.cyclic_next(10), Some(10));

        let spec = Specifier::new(17 as u32, 4325 as u32, SpecifierKind::Last);
        assert_eq!(spec.cyclic_next(453), Some(4325));
        assert_eq!(spec.cyclic_next(17), Some(4325));
        assert_eq!(spec.cyclic_next(4000), Some(4325));
        assert_eq!(spec.cyclic_next(1234), Some(4325));
    }
}

#[test]
fn specifier_nth_test() {
    {
        let a = 17u32;
        let b = 77u32;
        let n = 8u32;
        let spec = Specifier::new(a, b, SpecifierKind::Nth(n));
        for i in 0..=(b - a) {
            if i == n {
                assert!(spec.matches(a + i));
            } else {
                assert!(!spec.matches(a + i));
            }
        }
    }
    {
        let spec = Specifier::new(0 as u32, 10 as u32, SpecifierKind::Nth(4));
        assert_eq!(spec.cyclic_next(0), Some(4));
        assert_eq!(spec.cyclic_next(4), Some(4));
        assert_eq!(spec.cyclic_next(7), Some(4));
        assert_eq!(spec.cyclic_next(10), Some(4));

        let spec = Specifier::new(12 as u32, 50 as u32, SpecifierKind::Nth(10));
        assert_eq!(spec.cyclic_next(12), Some(22));
        assert_eq!(spec.cyclic_next(15), Some(22));
        assert_eq!(spec.cyclic_next(36), Some(22));
        assert_eq!(spec.cyclic_next(49), Some(22));
    }
}

#[test]
fn specifier_back_nth_test() {
    {
        let a = 17u32;
        let b = 77u32;
        let n = 8u32;
        let spec = Specifier::new(a, b, SpecifierKind::BackNth(n));
        for i in 0..=(b - a) {
            if i == n {
                assert!(spec.matches(b - i));
            } else {
                assert!(!spec.matches(b - i));
            }
        }
    }
    {
        let spec = Specifier::new(0 as u32, 10 as u32, SpecifierKind::BackNth(4));
        assert_eq!(spec.cyclic_next(0), Some(6));
        assert_eq!(spec.cyclic_next(4), Some(6));
        assert_eq!(spec.cyclic_next(7), Some(6));
        assert_eq!(spec.cyclic_next(10), Some(6));

        let spec = Specifier::new(12 as u32, 50 as u32, SpecifierKind::BackNth(10));
        assert_eq!(spec.cyclic_next(12), Some(40));
        assert_eq!(spec.cyclic_next(15), Some(40));
        assert_eq!(spec.cyclic_next(36), Some(40));
        assert_eq!(spec.cyclic_next(49), Some(40));
    }
}

#[test]
fn explicit_nth_test() {
    let a = 17u32;
    let b = 77u32;
    let indices = vec![0, 5, 28, 1000];
    let spec = Specifier::new(a, b, SpecifierKind::ExplicitNths(indices.clone()));
    for i in 0..=(b - a) {
        if indices.contains(&i) {
            assert!(spec.matches(a + i));
        } else {
            assert!(!spec.matches(a + i));
        }
    }
    assert!(!spec.matches(a + 1000));
}

#[test]
fn explicit_nths_empty_test() {
    let a = 17u32;
    let b = 77u32;
    let spec = Specifier::new(a, b, SpecifierKind::ExplicitNths(vec![]));
    for x in a..=b {
        assert!(!spec.matches(x));
    }
}

#[test]
fn specifier_explicit_list_empty() {
    {
        let a = 17u32;
        let b = 77u32;
        let spec = Specifier::new(a, b, SpecifierKind::ExplicitList(vec![]));
        for x in a..=b {
            assert!(!spec.matches(x));
        }
    }
    {
        let spec = Specifier::new(37 as u32, 128 as u32, SpecifierKind::ExplicitList(vec![]));
        assert_eq!(spec.cyclic_next(37), None);
        assert_eq!(spec.cyclic_next(55), None);
        assert_eq!(spec.cyclic_next(62), None);
        assert_eq!(spec.cyclic_next(100), None);
        assert_eq!(spec.cyclic_next(128), None);
    }
}

#[test]
fn explicit_list_test() {
    let a = 17u32;
    let b = 77u32;
    let values = vec![0, 5, 20, 28, 40, 55, 1000];
    let spec = Specifier::new(a, b, SpecifierKind::ExplicitList(values.clone()));
    for x in a..=b {
        if values.contains(&x) {
            assert!(spec.matches(x));
        } else {
            assert!(!spec.matches(x));
        }
    }
    assert!(!spec.matches(0));
    assert!(!spec.matches(5));
    assert!(!spec.matches(1000));
}

#[test]
fn specifier_every_0th() {
    {
        let a = 17u32;
        let b = 77u32;
        let spec = Specifier::new(a, b, SpecifierKind::EveryNth(0, 3));
        for x in a..=b {
            assert_eq!(spec.matches(x), x == 20);
        }
    }
    {
        let spec = Specifier::new(
            25 as u32,
            1200 as u32,
            SpecifierKind::EveryNth(0 as u32, 0 as u32),
        );
        assert_eq!(spec.cyclic_next(25), Some(25));
        assert_eq!(spec.cyclic_next(100), Some(25));
        assert_eq!(spec.cyclic_next(230), Some(25));
        assert_eq!(spec.cyclic_next(1000), Some(25));
        assert_eq!(spec.cyclic_next(1200), Some(25));

        let spec = Specifier::new(
            1000 as u32,
            1100 as u32,
            SpecifierKind::EveryNth(0 as u32, 37 as u32),
        );
        assert_eq!(spec.cyclic_next(1000), Some(1037));
        assert_eq!(spec.cyclic_next(1020), Some(1037));
        assert_eq!(spec.cyclic_next(1037), Some(1037));
        assert_eq!(spec.cyclic_next(1040), Some(1037));
        assert_eq!(spec.cyclic_next(1100), Some(1037));
    }
}

#[test]
fn every_nth_offset_too_big() {
    let a = 17u32;
    let b = 77u32;
    let spec = Specifier::new(a, b, SpecifierKind::EveryNth(0, 1000));
    for x in a..=b {
        assert!(!spec.matches(x));
    }
}

#[test]
fn every_nth() {
    let spec = Specifier::new(10u32, 20u32, SpecifierKind::EveryNth(3, 2));
    assert!(spec.matches(12));
    assert!(spec.matches(15));
    assert!(spec.matches(18));
    assert!(!spec.matches(10));
    assert!(!spec.matches(11));
    assert!(!spec.matches(13));
    assert!(!spec.matches(14));
    assert!(!spec.matches(16));
    assert!(!spec.matches(17));
    assert!(!spec.matches(19));
    assert!(!spec.matches(20));
}

#[test]
fn explicit_nths() {
    let spec = Specifier::new(
        0 as u32,
        10 as u32,
        SpecifierKind::ExplicitNths(vec![1, 3, 7, 10]),
    );
    assert_eq!(spec.cyclic_next(0), Some(1));
    assert_eq!(spec.cyclic_next(1), Some(3));
    assert_eq!(spec.cyclic_next(3), Some(7));
    assert_eq!(spec.cyclic_next(7), Some(10));
    assert_eq!(spec.cyclic_next(10), Some(1)); // test a simple overflow here

    let spec = Specifier::new(
        20 as u32,
        45 as u32,
        SpecifierKind::ExplicitNths(vec![0, 5, 10, 11, 15, 20]),
    );
    assert_eq!(spec.cyclic_next(20), Some(25));
    assert_eq!(spec.cyclic_next(21), Some(25));
    assert_eq!(spec.cyclic_next(24), Some(25));
    assert_eq!(spec.cyclic_next(25), Some(30));
    assert_eq!(spec.cyclic_next(30), Some(31));
    assert_eq!(spec.cyclic_next(31), Some(35));
    assert_eq!(spec.cyclic_next(35), Some(40));
    assert_eq!(spec.cyclic_next(38), Some(40));
    assert_eq!(spec.cyclic_next(40), Some(20));
    assert_eq!(spec.cyclic_next(43), Some(20));
    assert_eq!(spec.cyclic_next(45), Some(20));
}

#[test]
fn explicit_nths_empty() {
    let spec = Specifier::new(14 as u32, 200 as u32, SpecifierKind::ExplicitNths(vec![]));
    assert_eq!(spec.cyclic_next(14), None);
    assert_eq!(spec.cyclic_next(34), None);
    assert_eq!(spec.cyclic_next(100), None);
    assert_eq!(spec.cyclic_next(164), None);
    assert_eq!(spec.cyclic_next(200), None);
}

#[test]
fn explicit_list() {
    let spec = Specifier::new(
        1000 as u32,
        1500 as u32,
        SpecifierKind::ExplicitList(vec![1000, 1075, 1080, 1100, 1360, 1400, 1450]),
    );
    assert_eq!(spec.cyclic_next(1000), Some(1075));
    assert_eq!(spec.cyclic_next(1020), Some(1075));
    assert_eq!(spec.cyclic_next(1077), Some(1080));
    assert_eq!(spec.cyclic_next(1090), Some(1100));
    assert_eq!(spec.cyclic_next(1100), Some(1360));
    assert_eq!(spec.cyclic_next(1240), Some(1360));
    assert_eq!(spec.cyclic_next(1399), Some(1400));
    assert_eq!(spec.cyclic_next(1420), Some(1450));
    assert_eq!(spec.cyclic_next(1450), Some(1000));
    assert_eq!(spec.cyclic_next(1470), Some(1000));
    assert_eq!(spec.cyclic_next(1500), Some(1000));
}

#[test]
fn every_nth_offet_too_big() {
    let spec = Specifier::new(0 as u32, 10 as u32, SpecifierKind::EveryNth(1, 20));
    assert_eq!(spec.cyclic_next(0), None);
    assert_eq!(spec.cyclic_next(1), None);
    assert_eq!(spec.cyclic_next(2), None);
    assert_eq!(spec.cyclic_next(3), None);
    assert_eq!(spec.cyclic_next(7), None);
    assert_eq!(spec.cyclic_next(8), None);
    assert_eq!(spec.cyclic_next(9), None);
    assert_eq!(spec.cyclic_next(10), None);
}

#[test]
fn exery_nth() {
    let spec = Specifier::new(0 as u32, 6 as u32, SpecifierKind::EveryNth(2, 0));
    assert_eq!(spec.cyclic_next(0), Some(2));
    assert_eq!(spec.cyclic_next(1), Some(2));
    assert_eq!(spec.cyclic_next(2), Some(4));
    assert_eq!(spec.cyclic_next(3), Some(4));
    assert_eq!(spec.cyclic_next(4), Some(6));
    assert_eq!(spec.cyclic_next(5), Some(6));
    assert_eq!(spec.cyclic_next(6), Some(0));

    let spec = Specifier::new(10 as u32, 100 as u32, SpecifierKind::EveryNth(10, 5));
    assert_eq!(spec.cyclic_next(10), Some(15));
    assert_eq!(spec.cyclic_next(11), Some(15));
    assert_eq!(spec.cyclic_next(16), Some(25));
    assert_eq!(spec.cyclic_next(20), Some(25));
    assert_eq!(spec.cyclic_next(25), Some(35));
    assert_eq!(spec.cyclic_next(55), Some(65));
    assert_eq!(spec.cyclic_next(64), Some(65));
    assert_eq!(spec.cyclic_next(90), Some(95));
    assert_eq!(spec.cyclic_next(90), Some(95));
    assert_eq!(spec.cyclic_next(95), Some(15));
    assert_eq!(spec.cyclic_next(97), Some(15));
    assert_eq!(spec.cyclic_next(100), Some(15));

    let spec = Specifier::new(100 as u32, 1000 as u32, SpecifierKind::EveryNth(50, 150));
    assert_eq!(spec.cyclic_next(100), Some(250));
    assert_eq!(spec.cyclic_next(110), Some(250));
    assert_eq!(spec.cyclic_next(250), Some(300));
    assert_eq!(spec.cyclic_next(900), Some(950));
    assert_eq!(spec.cyclic_next(950), Some(1000));
    assert_eq!(spec.cyclic_next(960), Some(1000));
    assert_eq!(spec.cyclic_next(1000), Some(250));
}
