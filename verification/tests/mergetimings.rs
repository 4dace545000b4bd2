use channelled_callbacks::{CollectResult, MergeTimings, Timings};

fn timing(name: &str, v: u64, other: u32) -> Timings<u32> {
    let mut t = Timings::new();
    t.add(name, v);
    t.add_other(name, other);
    t
}

#[test]
fn collect_of_nothing_is_empty() {
    let m: MergeTimings<u32> = MergeTimings::new();
    let r = m.collect(Vec::new());
    assert!(r.timings().is_empty());
    assert!(r.others().is_empty());
}

#[test]
fn collect_of_one_is_that_one() {
    let m: MergeTimings<u32> = MergeTimings::new();
    let r = m.collect(vec![timing("a", 3, 1)]);
    assert_eq!(r.get("a"), Some(3));
    assert_eq!(r.others().clone(), vec![("a".to_string(), 1)]);
}

#[test]
fn collect_sums_per_name_and_puts_last_others_first() {
    let m: MergeTimings<u32> = MergeTimings::new();
    let r = m.collect(vec![timing("a", 1, 10), timing("b", 2, 20), timing("a", 4, 30)]);
    assert_eq!(r.get("a"), Some(5));
    assert_eq!(r.get("b"), Some(2));
    assert_eq!(r.timings().len(), 2);
    assert_eq!(
        r.others().clone(),
        vec![("a".to_string(), 30), ("a".to_string(), 10), ("b".to_string(), 20)]
    );
}
