use calendar_automerge::appointment::AppointmentOrTask;
use calendar_automerge::order::{remove_marked, sort_by_init};
use calendar_automerge::repeat::RepeatPeriod;

fn entry(title: &str, init: i64) -> AppointmentOrTask {
    let mut a = AppointmentOrTask::new_at(false, init);
    a.title = title.to_string();
    a
}

#[test]
fn new_at_is_one_hour_long() {
    let a = AppointmentOrTask::new_at(true, 1000);
    assert!(a.is_task);
    assert_eq!(a.init, 1000);
    assert_eq!(a.end, 4600);
    assert_eq!(a.priority, 1);
    assert_eq!(a.title, "");
    assert_eq!(a.status, "");
    assert_eq!(a.alarm_before, 0);
    assert_eq!(a.repeat_period.spread(), (0, 0, 0, 0, 0, 0, 0));
}

#[test]
fn new_for_window_starts_now() {
    let a = AppointmentOrTask::new_for_window(false);
    assert!(!a.is_task);
    assert!(a.init > 1_600_000_000);
    assert_eq!(a.end, a.init + 3600);
    assert_eq!(a.priority, 1);
}

#[test]
fn default_entry_is_blank() {
    let a = AppointmentOrTask::default();
    assert!(!a.is_task);
    assert_eq!(a.init, 0);
    assert_eq!(a.end, 0);
    assert_eq!(a.priority, 0);
    assert_eq!(a.title, "");
}

#[test]
fn clone_copies_every_field() {
    let mut a = entry("Dentist", 50);
    a.end = 70;
    a.text = "bring card".to_string();
    a.location = "Main St".to_string();
    a.category = "health".to_string();
    a.status = "confirmed".to_string();
    a.alarm_before = 600;
    a.priority = 3;
    a.is_task = true;
    a.repeat_period = RepeatPeriod::new(0, 6, 0, 0, 0, 0, 0);
    let b = a.clone();
    assert_eq!(b.title, "Dentist");
    assert_eq!(b.init, 50);
    assert_eq!(b.end, 70);
    assert_eq!(b.text, "bring card");
    assert_eq!(b.location, "Main St");
    assert_eq!(b.category, "health");
    assert_eq!(b.status, "confirmed");
    assert_eq!(b.alarm_before, 600);
    assert_eq!(b.priority, 3);
    assert!(b.is_task);
    assert_eq!(b.repeat_period.irregular.months, 6);
}

#[test]
fn formatted_title_of_epoch() {
    let a = entry("Meet", 0);
    assert_eq!(a.formatted_title(), "Meet | 1970-01-01 00:00:00-1970-01-01 01:00:00");
}

#[test]
fn formatted_title_writes_utc_times() {
    let mut a = entry("Call", 1709649015);
    a.end = 1709654415;
    assert_eq!(a.formatted_title(), "Call | 2024-03-05 14:30:15-2024-03-05 16:00:15");
}

#[test]
fn formatted_title_signs_years_past_9999() {
    let mut a = entry("Far", 253402300799);
    a.end = 253402300800;
    assert_eq!(a.formatted_title(), "Far | 9999-12-31 23:59:59-+10000-01-01 00:00:00");
}

#[test]
fn formatted_title_before_epoch() {
    let mut a = entry("Old", -1);
    a.end = -1;
    assert_eq!(a.formatted_title(), "Old | 1969-12-31 23:59:59-1969-12-31 23:59:59");
}

#[test]
fn sort_orders_by_start_stably() {
    let mut v = vec![entry("c", 30), entry("a1", 10), entry("b", 20), entry("a2", 10), entry("z", -5)];
    sort_by_init(&mut v);
    let titles: Vec<&str> = v.iter().map(|a| a.title.as_str()).collect();
    assert_eq!(titles, vec!["z", "a1", "a2", "b", "c"]);
}

#[test]
fn sort_of_empty_and_single() {
    let mut v: Vec<AppointmentOrTask> = Vec::new();
    sort_by_init(&mut v);
    assert!(v.is_empty());
    let mut w = vec![entry("only", 3)];
    sort_by_init(&mut w);
    assert_eq!(w[0].title, "only");
}

#[test]
fn remove_marked_keeps_the_rest_in_order() {
    let mut v = vec![entry("a", 1), entry("b", 2), entry("c", 3), entry("d", 4)];
    remove_marked(&mut v, &vec![1, 3]);
    let titles: Vec<&str> = v.iter().map(|a| a.title.as_str()).collect();
    assert_eq!(titles, vec!["a", "c"]);
}

#[test]
fn remove_marked_with_nothing_marked() {
    let mut v = vec![entry("a", 1), entry("b", 2)];
    remove_marked(&mut v, &Vec::new());
    assert_eq!(v.len(), 2);
    remove_marked(&mut v, &vec![0, 1]);
    assert!(v.is_empty());
}

#[test]
fn sort_keeps_a_sorted_list() {
    let mut v = vec![entry("p", 1), entry("q", 1), entry("r", 2)];
    sort_by_init(&mut v);
    let titles: Vec<&str> = v.iter().map(|a| a.title.as_str()).collect();
    assert_eq!(titles, vec!["p", "q", "r"]);
}
