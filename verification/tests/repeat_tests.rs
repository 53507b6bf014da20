use calendar_automerge::repeat::{IrregularRepeatPeriod, RegularRepeatPeriod, RepeatPeriod};

#[test]
fn regular_new_counts_seconds() {
    let p = RegularRepeatPeriod::new(1, 2, 3, 4, 5);
    assert_eq!(p.seconds, 788645);
}

#[test]
fn irregular_new_counts_months() {
    let p = IrregularRepeatPeriod::new(2, 3);
    assert_eq!(p.months, 27);
}

#[test]
fn spread_gives_components_back_within_a_week() {
    let p = RepeatPeriod::new(1, 2, 0, 3, 4, 5, 6);
    assert_eq!(p.spread(), (1, 2, 0, 3, 4, 5, 6));
}

#[test]
fn spread_counts_weeks_into_days() {
    let p = RepeatPeriod::new(0, 0, 1, 2, 0, 0, 0);
    assert_eq!(p.spread(), (0, 0, 1, 9, 0, 0, 0));
}

#[test]
fn new_of_spread_adds_a_week_per_week() {
    let p = RepeatPeriod::new(3, 5, 2, 1, 0, 0, 0);
    let (y, mo, w, d, h, mi, s) = p.spread();
    let q = RepeatPeriod::new(y, mo, w, d, h, mi, s);
    assert_eq!(q.irregular.months, p.irregular.months);
    assert_eq!(q.regular.seconds, p.regular.seconds + 604800 * 2);
}

#[test]
fn spread_of_negative_period_truncates_toward_zero() {
    let p = RepeatPeriod { regular: RegularRepeatPeriod { seconds: -3661 }, irregular: IrregularRepeatPeriod { months: -13 } };
    assert_eq!(p.spread(), (-1, -1, 0, 0, -1, -1, -1));
}

#[test]
fn regular_text() {
    let p = RegularRepeatPeriod::new(3, 4, 5, 6, 7);
    assert_eq!(p.to_string(), "3 weeks 4 days 5 hours 6 minutes 7 seconds");
}

#[test]
fn regular_text_of_negative_seconds() {
    let p = RegularRepeatPeriod { seconds: -61 };
    assert_eq!(p.to_string(), "0 weeks 0 days 0 hours -1 minutes -1 seconds");
}

#[test]
fn irregular_text() {
    assert_eq!(IrregularRepeatPeriod::new(1, 2).to_string(), "1 years 2 months");
    assert_eq!(IrregularRepeatPeriod { months: -13 }.to_string(), "-1 years -1 months");
}

#[test]
fn whole_period_text() {
    let p = RepeatPeriod::new(1, 2, 3, 4, 5, 6, 7);
    assert_eq!(p.to_string(), "1 years 2 months 3 weeks 4 days 5 hours 6 minutes 7 seconds");
}

#[test]
fn default_period_is_empty() {
    let p = RepeatPeriod::default();
    assert_eq!(p.spread(), (0, 0, 0, 0, 0, 0, 0));
    assert_eq!(p.to_string(), "0 years 0 months 0 weeks 0 days 0 hours 0 minutes 0 seconds");
}
