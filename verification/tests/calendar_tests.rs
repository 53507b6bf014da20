use calendar_automerge::calendar::{date_is_in_range, days_from_month, timestamp_is_in_range};
use calendar_automerge::counter::{counter_step_fits, ui_counter_step};
use calendar_automerge::text::{int_text, nat_text, pad_zeros};

#[test]
fn month_lengths() {
    assert_eq!(days_from_month(2024, 2), 29);
    assert_eq!(days_from_month(2023, 2), 28);
    assert_eq!(days_from_month(1900, 2), 28);
    assert_eq!(days_from_month(2000, 2), 29);
    assert_eq!(days_from_month(2023, 12), 31);
    assert_eq!(days_from_month(2023, 4), 30);
    assert_eq!(days_from_month(-4, 2), 29);
}

#[test]
fn range_checks() {
    assert!(date_is_in_range(2024, 2, 29));
    assert!(!date_is_in_range(2023, 2, 29));
    assert!(!date_is_in_range(2023, 13, 1));
    assert!(!date_is_in_range(262143, 1, 1));
    assert!(date_is_in_range(-262143, 1, 1));
    assert!(timestamp_is_in_range(0));
    assert!(timestamp_is_in_range(-8334601228800));
    assert!(!timestamp_is_in_range(-8334601228801));
    assert!(timestamp_is_in_range(8210266876799));
    assert!(!timestamp_is_in_range(8210266876800));
}

#[test]
fn decimal_text() {
    assert_eq!(nat_text(0), "0");
    assert_eq!(nat_text(1234567890), "1234567890");
    assert_eq!(int_text(-42), "-42");
    assert_eq!(int_text(i64::MIN), "-9223372036854775808");
    assert_eq!(pad_zeros(nat_text(7), 2), "07");
    assert_eq!(pad_zeros(nat_text(123), 2), "123");
}

#[test]
fn counter_steps() {
    assert_eq!(ui_counter_step(5, 1, 12, true, false, true), 6);
    assert_eq!(ui_counter_step(5, 1, 12, true, true, false), 4);
    assert_eq!(ui_counter_step(5, 1, 12, true, false, false), 5);
}

#[test]
fn counter_wraps_when_cycling() {
    assert_eq!(ui_counter_step(12, 1, 12, true, false, true), 1);
    assert_eq!(ui_counter_step(1, 1, 12, true, true, false), 12);
}

#[test]
fn counter_stops_at_bounds_without_cycling() {
    assert_eq!(ui_counter_step(12, 1, 12, false, false, true), 12);
    assert_eq!(ui_counter_step(1, 1, 12, false, true, false), 1);
}

#[test]
fn counter_presses_undo_each_other() {
    let up = ui_counter_step(7, 0, 59, true, false, true);
    assert_eq!(ui_counter_step(up, 0, 59, true, true, false), 7);
    let down = ui_counter_step(0, 0, 59, true, true, false);
    assert_eq!(down, 59);
    assert_eq!(ui_counter_step(down, 0, 59, true, false, true), 0);
}

#[test]
fn counter_at_the_ends_of_i64() {
    assert!(counter_step_fits(i64::MAX, 0, i64::MAX, true, false, true));
    assert_eq!(ui_counter_step(i64::MAX, 0, i64::MAX, true, false, true), 0);
    assert_eq!(ui_counter_step(i64::MAX, 0, i64::MAX, false, true, false), i64::MAX - 1);
    assert_eq!(ui_counter_step(i64::MIN, i64::MIN, 5, true, true, false), 5);
    assert!(!counter_step_fits(i64::MAX, 0, 5, true, false, true));
    assert!(!counter_step_fits(i64::MIN, 0, 5, true, true, false));
}
