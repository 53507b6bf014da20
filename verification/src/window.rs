//! The window that creates or edits an appointment or a task: what it shows of an
//! entry, the month grid it picks a day from, and the entry it saves.

use crate::appointment::AppointmentOrTask;
use crate::calendar::{
    civil_from_timestamp, civil_of, date_is_in_range, days_from_month, in_chrono_range, lemma_civil_of_exists,
    lemma_civil_of_seconds, lemma_date_within_year, lemma_year_start_monotonic, month_length, seconds_of,
    timestamp_in_range, timestamp_is_in_range, utc_timestamp, MAX_YEAR, MIN_YEAR,
};
use crate::repeat::{
    irregular_fits, irregular_months, is_canonical, lemma_new_of_spread, lemma_spread_of_new, regular_fits,
    regular_seconds, spread_of, RepeatPeriod,
};
use crate::text::{decimal, digits, int_text, nat_text, pad_zeros, zero_pad};
use vstd::prelude::*;

verus! {

/// What the editing window holds while it is open.
#[derive(Debug)]
pub struct AppointmentWindowData {
    pub title: String,
    /// The month and year the grid shows.
    pub month: u32,
    pub year: i32,
    /// The chosen day.
    pub selected_y: i32,
    pub selected_m: u32,
    pub selected_d: u32,
    /// Start time of day.
    pub hour: u32,
    pub minute: u32,
    /// Duration.
    pub d_hour: u32,
    pub d_minute: u32,
    pub text: String,
    pub is_task: bool,
    /// Repeat period of a task.
    pub repeat_y: i64,
    pub repeat_mo: i64,
    pub repeat_w: i64,
    pub repeat_d: i64,
    pub repeat_h: i64,
    pub repeat_mi: i64,
    pub repeat_s: i64,
}

/// What the editing window asks for after a frame.
#[derive(Debug)]
pub enum AppointmentWindowDataOutput {
    /// Save this entry.
    Saved(AppointmentOrTask),
    /// Keep the window open.
    Open,
    /// Close the window without saving.
    Closed,
}

/// Empty texts and every number zero.
pub open spec fn is_blank_window(w: AppointmentWindowData) -> bool {
    &&& w.title@ == Seq::<char>::empty()
    &&& w.text@ == Seq::<char>::empty()
    &&& w.month == 0 && w.year == 0
    &&& w.selected_y == 0 && w.selected_m == 0 && w.selected_d == 0
    &&& w.hour == 0 && w.minute == 0 && w.d_hour == 0 && w.d_minute == 0
    &&& !w.is_task
    &&& w.repeat_y == 0 && w.repeat_mo == 0 && w.repeat_w == 0 && w.repeat_d == 0
    &&& w.repeat_h == 0 && w.repeat_mi == 0 && w.repeat_s == 0
}

impl Default for AppointmentWindowData {
    fn default() -> (w: Self)
        ensures
            is_blank_window(w),
    {
        AppointmentWindowData {
            title: String::new(),
            month: 0,
            year: 0,
            selected_y: 0,
            selected_m: 0,
            selected_d: 0,
            hour: 0,
            minute: 0,
            d_hour: 0,
            d_minute: 0,
            text: String::new(),
            is_task: false,
            repeat_y: 0,
            repeat_mo: 0,
            repeat_w: 0,
            repeat_d: 0,
            repeat_h: 0,
            repeat_mi: 0,
            repeat_s: 0,
        }
    }
}

/// An entry the window can show: its start has a date `chrono` represents, and the
/// distance from start to end and its magnitude fit in `i64`.
pub open spec fn is_loadable(a: AppointmentOrTask) -> bool {
    &&& timestamp_in_range(a.init as int)
    &&& i64::MIN < a.end - a.init <= i64::MAX
}

/// Minutes of the duration of an entry as the window keeps them: the magnitude of
/// end minus start in whole minutes, kept in a `u32`.
pub open spec fn duration_minutes(a: AppointmentOrTask) -> u32 {
    let diff = if a.end - a.init < 0 { a.init - a.end } else { a.end - a.init };
    (diff / 60) as u32
}

/// `w` shows `a`: its title and text, the UTC date and time of its start (the grid on
/// that month), its duration in hours and minutes, whether it is a task and its repeat
/// period spread out.
pub open spec fn shows(w: AppointmentWindowData, a: AppointmentOrTask) -> bool {
    let c = civil_of(a.init as int);
    let minutes = duration_minutes(a);
    let r = spread_of(a.repeat_period.irregular.months as int, a.repeat_period.regular.seconds as int);
    &&& w.title == a.title
    &&& w.text == a.text
    &&& w.year as int == c.0
    &&& w.month as int == c.1
    &&& w.selected_y as int == c.0
    &&& w.selected_m as int == c.1
    &&& w.selected_d as int == c.2
    &&& w.hour as int == c.3
    &&& w.minute as int == c.4
    &&& w.d_hour == minutes / 60
    &&& w.d_minute == minutes % 60
    &&& w.is_task == a.is_task
    &&& (w.repeat_y as int, w.repeat_mo as int, w.repeat_w as int, w.repeat_d as int, w.repeat_h as int,
        w.repeat_mi as int, w.repeat_s as int) == r
}

/// What the window needs to save an entry: a chosen day that `chrono` represents, a
/// valid time of day, a duration whose seconds fit in a `u32`, and a repeat period
/// whose arithmetic fits in `i64`.
pub open spec fn is_savable(w: AppointmentWindowData) -> bool {
    &&& in_chrono_range(w.selected_y as int, w.selected_m as int, w.selected_d as int)
    &&& w.hour < 24
    &&& w.minute < 60
    &&& (w.d_minute + w.d_hour * 60) * 60 <= u32::MAX
    &&& irregular_fits(w.repeat_y as int, w.repeat_mo as int)
    &&& regular_fits(w.repeat_w as int, w.repeat_d as int, w.repeat_h as int, w.repeat_mi as int, w.repeat_s as int)
}

/// `a` is the entry the window `w` saves: of the window's kind, with its title and
/// text, starting at the chosen day and time read as UTC, lasting the chosen duration,
/// repeating by the chosen period, at priority 1 and otherwise blank.
pub open spec fn saved_from(a: AppointmentOrTask, w: AppointmentWindowData) -> bool {
    &&& a.is_task == w.is_task
    &&& a.title == w.title
    &&& a.text == w.text
    &&& a.init == seconds_of(w.selected_y as int, w.selected_m as int, w.selected_d as int, w.hour as int, w.minute as int, 0)
    &&& a.end == a.init + (w.d_minute + w.d_hour * 60) * 60
    &&& a.repeat_period.irregular.months == irregular_months(w.repeat_y as int, w.repeat_mo as int)
    &&& a.repeat_period.regular.seconds == regular_seconds(
        w.repeat_w as int,
        w.repeat_d as int,
        w.repeat_h as int,
        w.repeat_mi as int,
        w.repeat_s as int,
    )
    &&& a.location@ == Seq::<char>::empty()
    &&& a.category@ == Seq::<char>::empty()
    &&& a.status@ == Seq::<char>::empty()
    &&& a.alarm_before == 0
    &&& a.priority == 1
}

/// The timestamp of a date `chrono` represents is in its range.
pub proof fn lemma_timestamp_of_date_in_range(y: int, m: int, d: int, h: int, mi: int)
    requires
        in_chrono_range(y, m, d),
        0 <= h < 24,
        0 <= mi < 60,
    ensures
        timestamp_in_range(seconds_of(y, m, d, h, mi, 0)),
{
    lemma_date_within_year(y, m, d);
    lemma_year_start_monotonic(MIN_YEAR as int, y);
    lemma_year_start_monotonic(y, MAX_YEAR + 1);
}

/// Saving the window and opening the saved entry again shows what the window held:
/// the same title, text, kind, day (the grid on its month), time and duration (when
/// the minutes of the duration are below an hour), and the same repeat period when it
/// was given with each unit below the next, except that the days come back as the
/// whole number of days, the weeks counted in.
pub proof fn lemma_save_then_load(w: AppointmentWindowData, a: AppointmentOrTask, w2: AppointmentWindowData)
    requires
        is_savable(w),
        saved_from(a, w),
        w.d_minute < 60,
    ensures
        is_loadable(a),
        shows(w2, a) ==> {
            &&& w2.title == w.title
            &&& w2.text == w.text
            &&& w2.is_task == w.is_task
            &&& w2.selected_y == w.selected_y
            &&& w2.selected_m == w.selected_m
            &&& w2.selected_d == w.selected_d
            &&& w2.year == w.selected_y
            &&& w2.month == w.selected_m
            &&& w2.hour == w.hour
            &&& w2.minute == w.minute
            &&& w2.d_hour == w.d_hour
            &&& w2.d_minute == w.d_minute
        },
        shows(w2, a) && is_canonical(
            (
                w.repeat_y as int,
                w.repeat_mo as int,
                w.repeat_w as int,
                w.repeat_d as int,
                w.repeat_h as int,
                w.repeat_mi as int,
                w.repeat_s as int,
            ),
        ) ==> {
            &&& w2.repeat_y == w.repeat_y
            &&& w2.repeat_mo == w.repeat_mo
            &&& w2.repeat_w == w.repeat_w
            &&& w2.repeat_d == 7 * w.repeat_w + w.repeat_d
            &&& w2.repeat_h == w.repeat_h
            &&& w2.repeat_mi == w.repeat_mi
            &&& w2.repeat_s == w.repeat_s
        },
{
    let c = (w.selected_y as int, w.selected_m as int, w.selected_d as int, w.hour as int, w.minute as int, 0int);
    lemma_timestamp_of_date_in_range(c.0, c.1, c.2, c.3, c.4);
    lemma_civil_of_seconds(c);
    let minutes = (w.d_minute + w.d_hour * 60) as int;
    assert(duration_minutes(a) == minutes);
    let r = (
        w.repeat_y as int,
        w.repeat_mo as int,
        w.repeat_w as int,
        w.repeat_d as int,
        w.repeat_h as int,
        w.repeat_mi as int,
        w.repeat_s as int,
    );
    if is_canonical(r) {
        lemma_spread_of_new(r);
    }
}

/// Opening an entry in the window and saving it at once gives an entry of the same
/// kind, title and text, whose start is the old start rounded down to the whole
/// minute, whose duration is the old one in whole minutes, whose repeat period has the
/// same months and the same seconds plus one more week for every whole week of it
/// (the window shows the days as the whole number of days, the weeks counted in).
pub proof fn lemma_load_then_save(a: AppointmentOrTask, w: AppointmentWindowData, a2: AppointmentOrTask)
    requires
        is_loadable(a),
        shows(w, a),
        is_savable(w),
        saved_from(a2, w),
    ensures
        a2.is_task == a.is_task,
        a2.title == a.title,
        a2.text == a.text,
        a2.init == a.init - a.init % 60,
        a2.end == a2.init + 60 * duration_minutes(a),
        a2.repeat_period.irregular.months == a.repeat_period.irregular.months,
        a2.repeat_period.regular.seconds == a.repeat_period.regular.seconds + 604800 * spread_of(
            a.repeat_period.irregular.months as int,
            a.repeat_period.regular.seconds as int,
        ).2,
{
    lemma_civil_of_exists(a.init as int);
    lemma_new_of_spread(a.repeat_period.irregular.months as int, a.repeat_period.regular.seconds as int);
    let c = civil_of(a.init as int);
    assert(a.init % 60 == c.5);
}

/// Whether the window can show `a`.
pub fn can_load(a: &AppointmentOrTask) -> (b: bool)
    ensures
        b == is_loadable(*a),
{
    let diff = a.end as i128 - a.init as i128;
    timestamp_is_in_range(a.init) && (i64::MIN as i128) < diff && diff <= i64::MAX as i128
}

fn fits_i64(x: i128) -> (b: bool)
    ensures
        b == (i64::MIN <= x <= i64::MAX),
{
    i64::MIN as i128 <= x && x <= i64::MAX as i128
}

/// Whether the values of a repeat period can be combined into one.
pub fn repeat_fits(y: i64, mo: i64, w: i64, d: i64, h: i64, mi: i64, s: i64) -> (b: bool)
    ensures
        b == (irregular_fits(y as int, mo as int) && regular_fits(w as int, d as int, h as int, mi as int, s as int)),
{
    let months_ok = fits_i64(12 * y as i128) && fits_i64(12 * y as i128 + mo as i128);
    let a1 = w as i128 * 7;
    if !fits_i64(a1) {
        return false;
    }
    let a2 = a1 + d as i128;
    if !fits_i64(a2) {
        return false;
    }
    let a3 = a2 * 24;
    if !fits_i64(a3) {
        return false;
    }
    let a4 = a3 + h as i128;
    if !fits_i64(a4) {
        return false;
    }
    let a5 = a4 * 60;
    if !fits_i64(a5) {
        return false;
    }
    let a6 = a5 + mi as i128;
    if !fits_i64(a6) {
        return false;
    }
    let a7 = a6 * 60;
    if !fits_i64(a7) {
        return false;
    }
    let a8 = a7 + s as i128;
    months_ok && fits_i64(a8)
}

/// The label of a day in the month grid: the number, with a space ahead of it when it
/// has one digit.
pub open spec fn day_label_text(day: int) -> Seq<char> {
    if day < 10 {
        seq![' '] + digits(day as nat)
    } else {
        digits(day as nat)
    }
}

/// The label of a day in the month grid.
pub fn day_label(day: u32) -> (label: String)
    ensures
        label@ == day_label_text(day as int),
{
    let lpad = if day < 10 { " " } else { "" };
    proof {
        reveal_strlit(" ");
        reveal_strlit("");
    }
    String::from_str(lpad).concat(nat_text(day as u64).as_str())
}

/// The cells of the month grid of `month` in `year`: five weeks of seven days; cell
/// `i` holds day `i + 1` when the month has that day, and nothing after its end.
pub fn month_grid(year: i32, month: u32) -> (cells: Vec<Option<u32>>)
    requires
        1 <= month <= 12,
        MIN_YEAR <= year,
        year < MAX_YEAR || (year == MAX_YEAR && month < 12),
    ensures
        cells@.len() == 35,
        forall|i: int|
            0 <= i < 35 ==> #[trigger] cells@[i] == if i + 1 <= month_length(year as int, month as int) {
                Some((i + 1) as u32)
            } else {
                None
            },
{
    let days = days_from_month(year, month);
    let mut cells: Vec<Option<u32>> = Vec::new();
    let mut w: u32 = 0;
    while w < 5
        invariant
            w <= 5,
            days == month_length(year as int, month as int),
            cells@.len() == 7 * w,
            forall|i: int|
                0 <= i < 7 * w ==> #[trigger] cells@[i] == if i + 1 <= days {
                    Some((i + 1) as u32)
                } else {
                    None
                },
        decreases 5 - w,
    {
        let mut wd: u32 = 1;
        while wd <= 7
            invariant
                w < 5,
                1 <= wd <= 8,
                cells@.len() == 7 * w + wd - 1,
                forall|i: int|
                    0 <= i < 7 * w + wd - 1 ==> #[trigger] cells@[i] == if i + 1 <= days {
                        Some((i + 1) as u32)
                    } else {
                        None
                    },
            decreases 8 - wd,
        {
            let day = w * 7 + wd;
            if day > days {
                cells.push(None);
            } else {
                cells.push(Some(day));
            }
            wd = wd + 1;
        }
        w = w + 1;
    }
    cells
}

impl AppointmentWindowData {
    /// Whether `day` of the month the grid shows is the chosen day.
    pub fn is_selected_day(&self, day: u32) -> (b: bool)
        ensures
            b == (self.selected_y == self.year && self.selected_m == self.month && self.selected_d == day),
    {
        self.selected_y == self.year && self.selected_m == self.month && self.selected_d == day
    }

    /// Chooses `day` of the month the grid shows.
    pub fn select_day(&mut self, day: u32)
        ensures
            *final(self) == (AppointmentWindowData {
                selected_y: old(self).year,
                selected_m: old(self).month,
                selected_d: day,
                ..*old(self)
            }),
    {
        self.selected_y = self.year;
        self.selected_m = self.month;
        self.selected_d = day;
    }

    /// "Selected {yyyy}-{mm}-{dd}": the chosen day, each number padded with '0' on the
    /// left to four, two and two characters.
    pub fn selected_heading(&self) -> (s: String)
        ensures
            s@ == "Selected "@ + zero_pad(decimal(self.selected_y as int), 4) + "-"@ + zero_pad(
                decimal(self.selected_m as int),
                2,
            ) + "-"@ + zero_pad(decimal(self.selected_d as int), 2),
    {
        let mut s = String::from_str("Selected ");
        s.append(pad_zeros(int_text(self.selected_y as i64), 4).as_str());
        s.append("-");
        s.append(pad_zeros(int_text(self.selected_m as i64), 2).as_str());
        s.append("-");
        s.append(pad_zeros(int_text(self.selected_d as i64), 2).as_str());
        s
    }

    /// Whether the window can save its entry.
    pub fn can_save(&self) -> (b: bool)
        ensures
            b == is_savable(*self),
    {
        date_is_in_range(self.selected_y, self.selected_m, self.selected_d) && self.hour < 24 && self.minute < 60
            && (self.d_minute as u128 + self.d_hour as u128 * 60) * 60 <= u32::MAX as u128 && repeat_fits(
            self.repeat_y,
            self.repeat_mo,
            self.repeat_w,
            self.repeat_d,
            self.repeat_h,
            self.repeat_mi,
            self.repeat_s,
        )
    }

    /// Shows `aot` in the window.
    pub fn load(&mut self, aot: AppointmentOrTask)
        requires
            is_loadable(aot),
        ensures
            shows(*final(self), aot),
    {
        let (year, month, day, hour, minute) = civil_from_timestamp(aot.init);
        proof {
            let second = aot.init - seconds_of(year as int, month as int, day as int, hour as int, minute as int, 0);
            lemma_civil_of_seconds((year as int, month as int, day as int, hour as int, minute as int, second));
        }
        let repeat = aot.repeat_period.spread();
        let is_task = aot.is_task;
        let diff = aot.end - aot.init;
        let diff = if diff < 0 { -diff } else { diff };
        self.title = aot.title;
        self.text = aot.text;
        self.month = month;
        self.year = year;
        self.hour = hour;
        self.minute = minute;
        self.d_minute = (diff / 60) as u32;
        self.d_hour = self.d_minute / 60;
        self.d_minute = self.d_minute - self.d_hour * 60;
        self.selected_y = self.year;
        self.selected_m = self.month;
        self.selected_d = day;
        self.is_task = is_task;
        let (y, mo, w, d, h, mi, s) = repeat;
        self.repeat_y = y;
        self.repeat_mo = mo;
        self.repeat_w = w;
        self.repeat_d = d;
        self.repeat_h = h;
        self.repeat_mi = mi;
        self.repeat_s = s;
    }

    /// The entry the window saves: a new entry of its kind whose title, text, start,
    /// duration and repeat period are those the window holds, the start read as UTC.
    pub fn saved_appointment(&self) -> (aot: AppointmentOrTask)
        requires
            is_savable(*self),
        ensures
            saved_from(aot, *self),
    {
        let mut aot = AppointmentOrTask::new_for_window(self.is_task);
        aot.title = self.title.clone();
        aot.init = utc_timestamp(self.selected_y, self.selected_m, self.selected_d, self.hour, self.minute);
        proof {
            crate::appointment::lemma_timestamp_small(aot.init as int);
        }
        aot.end = aot.init + ((self.d_minute + self.d_hour * 60) * 60) as i64;
        aot.text = self.text.clone();
        aot.repeat_period = RepeatPeriod::new(
            self.repeat_y,
            self.repeat_mo,
            self.repeat_w,
            self.repeat_d,
            self.repeat_h,
            self.repeat_mi,
            self.repeat_s,
        );
        aot
    }
}

} // verus!
