use channelled_callbacks::Timings;

#[test]
fn it_works() {
    assert_eq!(2 + 2, 4);
}

#[test]
fn crate_exports_timings() {
    let t: Timings<u32> = Timings::new();
    assert!(t.timings().is_empty());
}
