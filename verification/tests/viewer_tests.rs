use calendar_automerge::calendar::{CalDate, LocalDateTime};
use calendar_automerge::viewer::{cell_highlight, day_offset, is_current_slot, CellHighlight, MainWindowData};

fn wednesday(seconds_of_day: u32) -> LocalDateTime {
    LocalDateTime { date: CalDate { year: 2024, month: 3, day: 6 }, seconds_of_day }
}

#[test]
fn default_viewer_is_empty() {
    let m = MainWindowData::default();
    assert_eq!(m.table_header.len(), 7);
    assert_eq!(m.table_body.len(), 48);
    assert!(m.selected_main_init.is_none());
    assert!(m.daytime_generated.is_none());
}

#[test]
fn table_is_the_week_from_sunday() {
    let mut m = MainWindowData::default();
    let r = m.generate_table(&wednesday(14 * 3600 + 45 * 60 + 10));
    assert_eq!(r, (3, 14, 45));
    assert_eq!(m.table_header[0].0, "Sunday (03/03)");
    assert_eq!(m.table_header[0].1, CalDate { year: 2024, month: 3, day: 3 });
    assert_eq!(m.table_header[3].0, "Wednesday (06/03)");
    assert_eq!(m.table_header[6].0, "Saturday (09/03)");
    assert_eq!(m.table_body[0], ("00:00".to_string(), 0, 0));
    assert_eq!(m.table_body[29], ("14:30".to_string(), 14, 30));
    assert_eq!(m.table_body[47], ("23:30".to_string(), 23, 30));
    assert_eq!(m.daytime_generated, Some(wednesday(14 * 3600 + 45 * 60 + 10)));
}

#[test]
fn table_crosses_month_ends() {
    let mut m = MainWindowData::default();
    let r = m.generate_table(&LocalDateTime { date: CalDate { year: 2024, month: 3, day: 1 }, seconds_of_day: 0 });
    assert_eq!(r, (5, 0, 0));
    assert_eq!(m.table_header[0].0, "Sunday (25/02)");
    assert_eq!(m.table_header[4].0, "Thursday (29/02)");
    assert_eq!(m.table_header[6].0, "Saturday (02/03)");
}

#[test]
fn table_is_kept_on_the_same_day() {
    let mut m = MainWindowData::default();
    m.generate_table(&wednesday(100));
    m.table_header[0].0 = "marker".to_string();
    let r = m.generate_table(&wednesday(3600 * 20 + 60 * 5));
    assert_eq!(r, (3, 20, 5));
    assert_eq!(m.table_header[0].0, "marker");
    assert_eq!(m.daytime_generated, Some(wednesday(100)));
}

#[test]
fn clicks_select_a_span() {
    let mut m = MainWindowData::default();
    m.click_slot(5000);
    assert_eq!((m.selected_main_init, m.selected_main_end), (Some(5000), None));
    m.click_slot(1000);
    assert_eq!((m.selected_main_init, m.selected_main_end), (Some(1000), Some(5000)));
    m.click_slot(7000);
    assert_eq!((m.selected_main_init, m.selected_main_end), (Some(7000), None));
    m.clear_selection();
    assert_eq!((m.selected_main_init, m.selected_main_end), (None, None));
    m.select_span(10, 20);
    assert_eq!((m.selected_main_init, m.selected_main_end), (Some(10), Some(20)));
}

#[test]
fn highlights() {
    assert_eq!(cell_highlight(Some(100), Some(200), 150, true, true), CellHighlight::Selected);
    assert_eq!(cell_highlight(Some(100), Some(200), 201, true, true), CellHighlight::CurrentSlot);
    assert_eq!(cell_highlight(Some(100), None, 1899, false, true), CellHighlight::Selected);
    assert_eq!(cell_highlight(Some(100), None, 1900, false, true), CellHighlight::CurrentDay);
    assert_eq!(cell_highlight(None, None, 0, false, false), CellHighlight::Normal);
    assert_eq!(cell_highlight(None, Some(5), 5, false, false), CellHighlight::Normal);
}

#[test]
fn current_slot() {
    assert!(is_current_slot(14, 30, 14, 45, 0));
    assert!(!is_current_slot(14, 0, 14, 45, 0));
    assert!(!is_current_slot(14, 30, 14, 45, 1));
    assert!(is_current_slot(9, 0, 9, 29, 0));
}

#[test]
fn day_offsets() {
    assert_eq!(day_offset(CalDate { year: 2024, month: 3, day: 3 }, 3), -3);
    assert_eq!(day_offset(CalDate { year: 1970, month: 1, day: 1 }, 0), 4);
}

#[test]
fn table_near_the_first_day_chrono_represents() {
    let mut m = MainWindowData::default();
    let sunday = LocalDateTime { date: CalDate { year: -262143, month: 1, day: 4 }, seconds_of_day: 0 };
    assert!(calendar_automerge::viewer::week_fits_in_range(&sunday));
    let r = m.generate_table(&sunday);
    assert_eq!(r, (0, 0, 0));
    assert_eq!(m.table_header[0].1, CalDate { year: -262143, month: 1, day: 4 });
    assert_eq!(m.table_header[6].1, CalDate { year: -262143, month: 1, day: 10 });
    let early = LocalDateTime { date: CalDate { year: -262143, month: 1, day: 2 }, seconds_of_day: 0 };
    assert!(!calendar_automerge::viewer::week_fits_in_range(&early));
}

#[test]
fn table_near_the_last_day_chrono_represents() {
    let late = LocalDateTime { date: CalDate { year: 262142, month: 12, day: 31 }, seconds_of_day: 0 };
    let fits = calendar_automerge::viewer::week_fits_in_range(&late);
    let mut m = MainWindowData::default();
    if fits {
        m.generate_table(&late);
        assert_eq!(m.table_header[6].1.year, 262142);
    }
    let mid = LocalDateTime { date: CalDate { year: 2024, month: 3, day: 6 }, seconds_of_day: 0 };
    assert!(calendar_automerge::viewer::week_fits_in_range(&mid));
}

#[test]
fn generate_table_now_fills_for_today() {
    let mut m = MainWindowData::default();
    let (now, parts) = m.generate_table_now();
    let (day, hh, mm) = parts.unwrap();
    assert!(day < 7 && hh < 24 && mm < 60);
    assert_eq!(m.daytime_generated, Some(now));
    assert_eq!(m.table_header.len(), 7);
}

#[test]
fn day_span_is_about_a_day_long() {
    if let Some((s, e)) = calendar_automerge::viewer::day_span(CalDate { year: 2024, month: 3, day: 6 }) {
        assert!(s <= e);
        let utc_midnight = 1709683200;
        assert!(s > utc_midnight - 86400 && s < utc_midnight + 86400);
    }
}

#[test]
fn cell_timestamp_is_near_the_utc_reading() {
    let today = wednesday(0);
    if let Some(t) = calendar_automerge::viewer::cell_timestamp(&today, -3, 10, 30) {
        let utc = 1709424000 + 10 * 3600 + 30 * 60;
        assert!(t > utc - 86400 && t < utc + 86400);
    }
}

#[test]
fn span_of_orders_known_ends() {
    assert_eq!(calendar_automerge::viewer::span_of(Some(1), Some(5)), Some((1, 5)));
    assert_eq!(calendar_automerge::viewer::span_of(Some(5), Some(5)), Some((5, 5)));
    assert_eq!(calendar_automerge::viewer::span_of(Some(6), Some(5)), None);
    assert_eq!(calendar_automerge::viewer::span_of(None, Some(5)), None);
    assert_eq!(calendar_automerge::viewer::span_of(Some(1), None), None);
}

#[test]
fn generate_table_at_refuses_weeks_out_of_range() {
    let mut m = MainWindowData::default();
    let early = LocalDateTime { date: CalDate { year: -262143, month: 1, day: 2 }, seconds_of_day: 0 };
    assert_eq!(m.generate_table_at(&early), None);
    assert!(m.daytime_generated.is_none());
    let bad = LocalDateTime { date: CalDate { year: 2023, month: 2, day: 29 }, seconds_of_day: 0 };
    assert_eq!(m.generate_table_at(&bad), None);
    assert_eq!(m.generate_table_at(&wednesday(3600)), Some((3, 1, 0)));
    assert_eq!(m.daytime_generated, Some(wednesday(3600)));
}
