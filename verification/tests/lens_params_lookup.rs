use gyroflow_core::file_metadata::lens_params_closest;

#[test]
fn nearest_wanted_entry_within_the_allowance() {
    let entries = vec![(0, true), (100, false), (150, true), (300, true)];
    assert_eq!(lens_params_closest(&entries, 140, 50), Some(2));
    assert_eq!(lens_params_closest(&entries, 100, 60), Some(2));
    // only wanted entries count
    assert_eq!(lens_params_closest(&entries, 100, 10), None);
    // an entry exactly `max_diff` away is out of range
    assert_eq!(lens_params_closest(&entries, 250, 50), None);
    assert_eq!(lens_params_closest(&entries, 250, 51), Some(3));
    // an exact hit
    assert_eq!(lens_params_closest(&entries, 300, 1), Some(3));
    // a negative allowance finds nothing
    assert_eq!(lens_params_closest(&entries, 300, -5), None);
    assert_eq!(lens_params_closest(&vec![], 0, 100), None);
}

#[test]
fn equally_near_entries_give_the_later_one() {
    let entries = vec![(100, true), (200, true)];
    assert_eq!(lens_params_closest(&entries, 150, 100), Some(1));
    assert_eq!(lens_params_closest(&entries, 149, 100), Some(0));
}

#[test]
fn extreme_timestamps_do_not_overflow() {
    let entries = vec![(i64::MIN, true), (i64::MAX, true)];
    assert_eq!(lens_params_closest(&entries, i64::MAX - 1, i64::MAX), Some(1));
    assert_eq!(lens_params_closest(&entries, i64::MIN + 1, i64::MAX), Some(0));
    assert_eq!(lens_params_closest(&entries, 0, i64::MAX), None);
    assert_eq!(lens_params_closest(&entries, 1, i64::MAX), Some(1));
}
