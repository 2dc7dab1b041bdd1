use ashina::range::NRangeInclusive;

#[test]
fn empty_set_contains_nothing() {
    let set: NRangeInclusive<u64> = NRangeInclusive::new();
    assert!(!set.contains(&0));
    assert!(!set.contains(&u64::MAX));
}

#[test]
fn contains_is_the_union_of_the_ranges() {
    let mut set = NRangeInclusive::new();
    set.push(10u64..=20);
    set.push(15u64..=30);
    set.push(100u64..=100);
    for x in 0u64..200 {
        let expected = (10..=30).contains(&x) || x == 100;
        assert_eq!(set.contains(&x), expected, "at {}", x);
    }
}

#[test]
fn ends_are_included() {
    let mut set = NRangeInclusive::new();
    set.push(2.5f64..=4.0);
    assert!(set.contains(&2.5));
    assert!(set.contains(&4.0));
    assert!(!set.contains(&4.000001));
    assert!(!set.contains(&2.499999));
}

#[test]
fn an_empty_range_adds_nothing() {
    let mut set = NRangeInclusive::new();
    set.push(5u64..=4);
    assert!(!set.contains(&4));
    assert!(!set.contains(&5));
}
