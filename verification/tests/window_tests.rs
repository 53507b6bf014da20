use calendar_automerge::appointment::AppointmentOrTask;
use calendar_automerge::repeat::RepeatPeriod;
use calendar_automerge::window::{day_label, month_grid, AppointmentWindowData};

fn loaded(a: AppointmentOrTask) -> AppointmentWindowData {
    let mut w = AppointmentWindowData::default();
    w.load(a);
    w
}

#[test]
fn load_shows_the_utc_start_and_duration() {
    let mut a = AppointmentOrTask::new_at(true, 1709649015);
    a.end = a.init + 5400;
    a.title = "Run".to_string();
    a.text = "5k".to_string();
    a.repeat_period = RepeatPeriod::new(0, 1, 0, 2, 3, 4, 5);
    let w = loaded(a);
    assert_eq!(w.title, "Run");
    assert_eq!(w.text, "5k");
    assert_eq!((w.year, w.month), (2024, 3));
    assert_eq!((w.selected_y, w.selected_m, w.selected_d), (2024, 3, 5));
    assert_eq!((w.hour, w.minute), (14, 30));
    assert_eq!((w.d_hour, w.d_minute), (1, 30));
    assert!(w.is_task);
    assert_eq!(
        (w.repeat_y, w.repeat_mo, w.repeat_w, w.repeat_d, w.repeat_h, w.repeat_mi, w.repeat_s),
        (0, 1, 0, 2, 3, 4, 5)
    );
}

#[test]
fn load_takes_the_magnitude_of_the_duration() {
    let mut a = AppointmentOrTask::new_at(false, 7200);
    a.end = 0;
    let w = loaded(a);
    assert_eq!((w.d_hour, w.d_minute), (2, 0));
    assert_eq!((w.hour, w.minute), (2, 0));
}

#[test]
fn save_reads_the_window() {
    let mut w = AppointmentWindowData::default();
    w.title = "Lunch".to_string();
    w.text = "with Ann".to_string();
    w.selected_y = 2024;
    w.selected_m = 3;
    w.selected_d = 5;
    w.hour = 12;
    w.minute = 15;
    w.d_hour = 1;
    w.d_minute = 30;
    w.is_task = false;
    w.repeat_w = 1;
    let a = w.saved_appointment();
    assert_eq!(a.title, "Lunch");
    assert_eq!(a.text, "with Ann");
    assert_eq!(a.init, 1709640900);
    assert_eq!(a.end, 1709640900 + 5400);
    assert_eq!(a.repeat_period.regular.seconds, 604800);
    assert_eq!(a.priority, 1);
    assert_eq!(a.location, "");
    assert!(!a.is_task);
}

#[test]
fn load_then_save_rounds_start_to_the_minute() {
    let mut a = AppointmentOrTask::new_at(false, 1709649015);
    a.end = a.init + 5400;
    let w = loaded(a);
    let b = w.saved_appointment();
    assert_eq!(b.init, 1709649015 - 15);
    assert_eq!(b.end, b.init + 5400);
}

#[test]
fn load_then_save_adds_a_week_per_week() {
    let mut a = AppointmentOrTask::new_at(true, 0);
    a.repeat_period = RepeatPeriod::new(0, 0, 2, 3, 0, 0, 0);
    let w = loaded(a);
    assert_eq!((w.repeat_w, w.repeat_d), (2, 17));
    let b = w.saved_appointment();
    assert_eq!(b.repeat_period.regular.seconds, (4 * 7 + 3) * 86400);
}

#[test]
fn save_then_load_gives_the_window_back() {
    let mut w = AppointmentWindowData::default();
    w.title = "X".to_string();
    w.selected_y = 1999;
    w.selected_m = 12;
    w.selected_d = 31;
    w.hour = 23;
    w.minute = 59;
    w.d_hour = 0;
    w.d_minute = 45;
    w.repeat_y = 1;
    w.repeat_mo = 11;
    let b = loaded(w.saved_appointment());
    assert_eq!((b.selected_y, b.selected_m, b.selected_d), (1999, 12, 31));
    assert_eq!((b.year, b.month), (1999, 12));
    assert_eq!((b.hour, b.minute, b.d_hour, b.d_minute), (23, 59, 0, 45));
    assert_eq!((b.repeat_y, b.repeat_mo), (1, 11));
    assert_eq!(b.title, "X");
}

#[test]
fn day_labels_are_two_wide() {
    assert_eq!(day_label(5), " 5");
    assert_eq!(day_label(12), "12");
}

#[test]
fn month_grid_stops_after_the_last_day() {
    let cells = month_grid(2023, 2);
    assert_eq!(cells.len(), 35);
    assert_eq!(cells[0], Some(1));
    assert_eq!(cells[27], Some(28));
    assert_eq!(cells[28], None);
    let leap = month_grid(2024, 2);
    assert_eq!(leap[28], Some(29));
    assert_eq!(leap[29], None);
    let long = month_grid(2024, 1);
    assert_eq!(long[30], Some(31));
    assert_eq!(long[31], None);
}

#[test]
fn selecting_a_day() {
    let mut w = AppointmentWindowData::default();
    w.year = 2025;
    w.month = 7;
    assert!(!w.is_selected_day(4));
    w.select_day(4);
    assert!(w.is_selected_day(4));
    assert_eq!((w.selected_y, w.selected_m, w.selected_d), (2025, 7, 4));
    w.month = 8;
    assert!(!w.is_selected_day(4));
}

#[test]
fn selected_heading_pads_with_zeros() {
    let mut w = AppointmentWindowData::default();
    w.selected_y = 2024;
    w.selected_m = 3;
    w.selected_d = 5;
    assert_eq!(w.selected_heading(), "Selected 2024-03-05");
    w.selected_y = -5;
    assert_eq!(w.selected_heading(), "Selected 00-5-03-05");
}
