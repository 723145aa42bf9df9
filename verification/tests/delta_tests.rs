use claw_monitor::delta::delta;

#[test]
fn delta_of_a_rising_counter_is_the_difference() {
    assert_eq!(delta(Some(100), Some(150)), Some(50));
    assert_eq!(delta(Some(0), Some(7)), Some(7));
    assert_eq!(delta(Some(1_000_000), Some(1_000_001)), Some(1));
}

#[test]
fn delta_of_an_unchanged_counter_is_zero() {
    assert_eq!(delta(Some(42), Some(42)), Some(0));
    assert_eq!(delta(Some(0), Some(0)), Some(0));
}

#[test]
fn delta_of_a_reset_counter_is_absent() {
    assert_eq!(delta(Some(100), Some(80)), None);
    assert_eq!(delta(Some(1), Some(0)), None);
    assert_eq!(delta(Some(i64::MAX), Some(0)), None);
}

#[test]
fn delta_with_a_missing_reading_is_absent() {
    assert_eq!(delta(None, Some(80)), None);
    assert_eq!(delta(Some(80), None), None);
    assert_eq!(delta(None, None), None);
}

#[test]
fn delta_is_exact_over_the_whole_range() {
    assert_eq!(delta(Some(0), Some(i64::MAX)), Some(i64::MAX as u64));
    assert_eq!(delta(Some(-1), Some(i64::MAX)), Some(1u64 << 63));
    assert_eq!(delta(Some(i64::MIN), Some(i64::MAX)), Some(u64::MAX));
    assert_eq!(delta(Some(-5), Some(-2)), Some(3));
    assert_eq!(delta(Some(-2), Some(-5)), None);
}
