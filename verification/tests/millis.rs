use recsys_prep::millis::get;

#[test]
fn it_works() {
    assert_eq!(get(0), "0 ms");
    assert_eq!(get(999), "999 ms");
    assert_eq!(get(1000), "1.000s");
    assert_eq!(get(59023), "59.023s");
    assert_eq!(get(60000), "1:00.000");
    assert_eq!(get(60000 * 59), "59:00.000");
    assert_eq!(get(60000 * 60), "1:00:00.000");
    assert_eq!(get(60000 * 60 * 25), "25:00:00.000");
}

#[test]
fn millis_pads_seconds_and_millis() {
    assert_eq!(get(61_005), "1:01.005");
    assert_eq!(get(3_723_004), "1:02:03.004");
    assert_eq!(get(1_050), "1.050s");
    assert_eq!(get(7), "7 ms");
}

#[test]
fn millis_large_values() {
    assert_eq!(get(u128::MAX), format!("{}:{:02}:{:02}.{:03}",
        u128::MAX / 3_600_000, (u128::MAX / 60_000) % 60, (u128::MAX / 1000) % 60, u128::MAX % 1000));
}

#[test]
fn millis_neighbours_render_differently() {
    assert_ne!(get(59_999), get(60_000));
    assert_eq!(get(59_999), "59.999s");
    assert_eq!(get(3_599_999), "59:59.999");
    assert_eq!(get(3_600_000), "1:00:00.000");
}
