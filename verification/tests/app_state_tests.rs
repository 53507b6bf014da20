use calendar_automerge::app_state::CalendarAutomergeApp;
use calendar_automerge::appointment::AppointmentOrTask;
use calendar_automerge::window::AppointmentWindowDataOutput;

fn entry(title: &str, init: i64, is_task: bool) -> AppointmentOrTask {
    let mut a = AppointmentOrTask::new_at(is_task, init);
    a.title = title.to_string();
    a
}

fn titles(v: &Vec<AppointmentOrTask>) -> Vec<String> {
    v.iter().map(|a| a.title.clone()).collect()
}

#[test]
fn starts_closed_and_empty() {
    let app = CalendarAutomergeApp::default();
    assert!(!app.awd_open);
    assert!(app.awd_editing_idx.is_none());
    assert!(app.appointments.is_empty() && app.tasks.is_empty() && app.done_tasks.is_empty());
    assert_eq!(app.window_title(), "New Appointment/Task");
}

#[test]
fn open_new_opens_the_window_on_a_new_entry() {
    let mut app = CalendarAutomergeApp::default();
    app.open_new(true);
    assert!(app.awd_open);
    assert!(app.awd.is_task);
    assert_eq!((app.awd.d_hour, app.awd.d_minute), (1, 0));
    assert_eq!(app.window_title(), "New Appointment/Task");
}

#[test]
fn saving_a_new_entry_adds_it_in_order() {
    let mut app = CalendarAutomergeApp::default();
    app.appointments = vec![entry("a", 10, false), entry("c", 30, false)];
    app.awd_open = true;
    app.handle_window_output(AppointmentWindowDataOutput::Saved(entry("b", 20, false)));
    assert_eq!(titles(&app.appointments), vec!["a", "b", "c"]);
    assert!(app.tasks.is_empty());
    assert!(!app.awd_open);
}

#[test]
fn saving_an_edit_replaces_and_reorders() {
    let mut app = CalendarAutomergeApp::default();
    app.tasks = vec![entry("a", 10, true), entry("b", 20, true), entry("c", 30, true)];
    app.apply_list_actions(true, Some(0), &Vec::new());
    assert!(app.awd_open);
    assert_eq!(app.awd_editing_idx, Some(0));
    assert_eq!(app.window_title(), "Editing Appointment/Task");
    assert_eq!(app.awd.title, "a");
    app.handle_window_output(AppointmentWindowDataOutput::Saved(entry("a2", 25, true)));
    assert_eq!(titles(&app.tasks), vec!["b", "a2", "c"]);
    assert!(!app.awd_open);
}

#[test]
fn open_and_close() {
    let mut app = CalendarAutomergeApp::default();
    app.awd_open = true;
    app.handle_window_output(AppointmentWindowDataOutput::Open);
    assert!(app.awd_open);
    app.handle_window_output(AppointmentWindowDataOutput::Closed);
    assert!(!app.awd_open);
}

#[test]
fn deleting_from_a_list() {
    let mut app = CalendarAutomergeApp::default();
    app.appointments = vec![entry("a", 1, false), entry("b", 2, false), entry("c", 3, false)];
    app.tasks = vec![entry("t", 1, true)];
    app.apply_list_actions(false, None, &vec![0, 2]);
    assert_eq!(titles(&app.appointments), vec!["b"]);
    assert_eq!(titles(&app.tasks), vec!["t"]);
    assert!(!app.awd_open);
}
