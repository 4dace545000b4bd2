use channelled_callbacks::Timings;

fn entries<T: Sync + Send + 'static>(t: &Timings<T>) -> Vec<(String, u64)> {
    let mut v = t.timings().clone();
    v.sort();
    v
}

#[test]
fn new_timings_are_empty() {
    let t: Timings<String> = Timings::new();
    assert!(t.timings().is_empty());
    assert!(t.others().is_empty());
    assert_eq!(t.get("a"), None);
}

#[test]
fn add_sets_and_overwrites() {
    let mut t: Timings<u8> = Timings::new();
    t.add("read", 5);
    t.add("write", 7);
    assert_eq!(t.get("read"), Some(5));
    assert_eq!(t.get("write"), Some(7));
    t.add("read", 11);
    assert_eq!(t.get("read"), Some(11));
    assert_eq!(t.timings().len(), 2);
    assert_eq!(t.get("other"), None);
}

#[test]
fn add_other_keeps_order_and_duplicates() {
    let mut t: Timings<u32> = Timings::new();
    t.add_other("x", 1);
    t.add_other("y", 2);
    t.add_other("x", 3);
    let o: Vec<(String, u32)> = t.others().clone();
    assert_eq!(o, vec![("x".to_string(), 1), ("y".to_string(), 2), ("x".to_string(), 3)]);
    assert!(t.timings().is_empty());
}

#[test]
fn combine_adds_durations_and_appends_others() {
    let mut a: Timings<u32> = Timings::new();
    a.add("p", 10);
    a.add("q", 1);
    a.add_other("a", 1);
    let mut b: Timings<u32> = Timings::new();
    b.add("p", 5);
    b.add("r", 2);
    b.add_other("b", 2);
    a.combine(b);
    assert_eq!(
        entries(&a),
        vec![("p".to_string(), 15), ("q".to_string(), 1), ("r".to_string(), 2)]
    );
    assert_eq!(a.others().clone(), vec![("a".to_string(), 1), ("b".to_string(), 2)]);
}

#[test]
fn combine_with_empty_changes_nothing() {
    let mut a: Timings<u32> = Timings::new();
    a.add("p", 3);
    a.add_other("o", 9);
    a.combine(Timings::new());
    assert_eq!(entries(&a), vec![("p".to_string(), 3)]);
    assert_eq!(a.others().clone(), vec![("o".to_string(), 9)]);

    let mut e: Timings<u32> = Timings::new();
    let mut b: Timings<u32> = Timings::new();
    b.add("p", 3);
    e.combine(b);
    assert_eq!(entries(&e), vec![("p".to_string(), 3)]);
}

#[test]
fn combine_commutes_on_durations() {
    let mk = |x: u64, y: u64| {
        let mut t: Timings<u8> = Timings::new();
        t.add("k", x);
        t.add(if y % 2 == 0 { "even" } else { "odd" }, y);
        t
    };
    let mut ab = mk(1, 2);
    ab.combine(mk(3, 5));
    let mut ba = mk(3, 5);
    ba.combine(mk(1, 2));
    assert_eq!(entries(&ab), entries(&ba));
    assert_eq!(ab.get("k"), Some(4));
}

#[test]
fn combine_holds_sum_at_max() {
    let mut a: Timings<u8> = Timings::new();
    a.add("t", u64::MAX - 1);
    let mut b: Timings<u8> = Timings::new();
    b.add("t", 5);
    a.combine(b);
    assert_eq!(a.get("t"), Some(u64::MAX));
}

#[test]
fn into_parts_gives_back_entries() {
    let mut a: Timings<u8> = Timings::new();
    a.add("t", 4);
    a.add_other("o", 6);
    let (ts, os) = a.into_parts();
    assert_eq!(ts, vec![("t".to_string(), 4)]);
    assert_eq!(os, vec![("o".to_string(), 6)]);
}
