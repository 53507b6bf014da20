//! The week viewer: a table of the seven days of the current week by half hours,
//! the selection of a span of time in it, and how each cell is highlighted.

use crate::calendar::{
    date_is_in_range, day_number, day_of_year, lemma_day_of_year, lemma_date_within_year, lemma_year_start_monotonic, lemma_year_step, local_now,
    local_timestamp, shift_date, weekday_from_sunday, CalDate, LocalDateTime, MAX_YEAR, MIN_YEAR,
};
use crate::text::{digits, nat_text, pad_zeros, zero_pad};
use vstd::prelude::*;

verus! {

/// Name of the day `i` days after Sunday.
pub open spec fn day_name_text(i: int) -> Seq<char> {
    if i == 0 {
        "Sunday"@
    } else if i == 1 {
        "Monday"@
    } else if i == 2 {
        "Tuesday"@
    } else if i == 3 {
        "Wednesday"@
    } else if i == 4 {
        "Thursday"@
    } else if i == 5 {
        "Friday"@
    } else {
        "Saturday"@
    }
}

/// The number written with at least two digits.
pub open spec fn pad2(n: int) -> Seq<char> {
    zero_pad(digits(n as nat), 2)
}

/// Heading of a day column: "{name} ({dd}/{mm})".
pub open spec fn header_label(i: int, date: CalDate) -> Seq<char> {
    day_name_text(i) + " ("@ + pad2(date.day as int) + "/"@ + pad2(date.month as int) + ")"@
}

/// Heading of a half-hour row: "{hh}:{mm}".
pub open spec fn slot_label(hour: int, minute: int) -> Seq<char> {
    pad2(hour) + ":"@ + pad2(minute)
}

fn day_name(i: usize) -> (name: &'static str)
    requires
        i < 7,
    ensures
        name@ == day_name_text(i as int),
{
    if i == 0 {
        "Sunday"
    } else if i == 1 {
        "Monday"
    } else if i == 2 {
        "Tuesday"
    } else if i == 3 {
        "Wednesday"
    } else if i == 4 {
        "Thursday"
    } else if i == 5 {
        "Friday"
    } else {
        "Saturday"
    }
}

fn two_digit_text(n: u32) -> (s: String)
    ensures
        s@ == pad2(n as int),
{
    pad_zeros(nat_text(n as u64), 2)
}

/// How a cell of the week table is highlighted.
#[derive(Clone, Copy, Debug, PartialEq, Eq, Structural)]
pub enum CellHighlight {
    /// Inside the selected span.
    Selected,
    /// The half hour that is going on now.
    CurrentSlot,
    /// Another half hour of today.
    CurrentDay,
    Normal,
}

/// State of the week viewer.
#[derive(Debug)]
pub struct MainWindowData {
    pub selected_main_init: Option<i64>,
    pub selected_main_end: Option<i64>,
    /// When the table was last filled; it is filled again on another day.
    pub daytime_generated: Option<LocalDateTime>,
    /// The seven day columns, Sunday first: heading and date.
    pub table_header: Vec<(String, CalDate)>,
    /// The 48 half-hour rows: heading, hour and minute.
    pub table_body: Vec<(String, u32, u32)>,
}

/// The selection after a click on the cell that starts at `timestamp`: a click starts
/// a new selection unless one was started and not finished, which it finishes,
/// ordering its two ends.
pub open spec fn selection_after_click(init: Option<i64>, end: Option<i64>, timestamp: i64) -> (Option<i64>, Option<i64>) {
    if init is None || end is Some {
        (Some(timestamp), None)
    } else {
        let start = init->0;
        (
            Some(if timestamp <= start { timestamp } else { start }),
            Some(if timestamp >= start { timestamp } else { start }),
        )
    }
}

/// The highlight of the cell that starts at `timestamp`: selected when it lies within
/// the selection (within the half hour after its start when only the start is chosen),
/// else the current half hour, else the current day.
pub open spec fn highlight_of(
    init: Option<i64>,
    end: Option<i64>,
    timestamp: i64,
    is_current: bool,
    is_current_day: bool,
) -> CellHighlight {
    if init is Some && end is Some && init->0 <= timestamp && end->0 >= timestamp {
        CellHighlight::Selected
    } else if init is Some && end is None && init->0 <= timestamp && init->0 + 1800 > timestamp {
        CellHighlight::Selected
    } else if is_current {
        CellHighlight::CurrentSlot
    } else if is_current_day {
        CellHighlight::CurrentDay
    } else {
        CellHighlight::Normal
    }
}

/// The highlight of a cell of the week table.
pub fn cell_highlight(
    sel_init: Option<i64>,
    sel_end: Option<i64>,
    timestamp: i64,
    is_current: bool,
    is_current_day: bool,
) -> (h: CellHighlight)
    requires
        sel_init matches Some(s) ==> (sel_end is None && s <= timestamp ==> s + 1800 <= i64::MAX),
    ensures
        h == highlight_of(sel_init, sel_end, timestamp, is_current, is_current_day),
{
    match (sel_init, sel_end, is_current, is_current_day) {
        (Some(init), Some(end), _, _) if init <= timestamp && end >= timestamp => CellHighlight::Selected,
        (Some(init), None, _, _) if init <= timestamp && (init + 60 * 30) > timestamp => CellHighlight::Selected,
        (_, _, true, _) => CellHighlight::CurrentSlot,
        (_, _, _, true) => CellHighlight::CurrentDay,
        _ => CellHighlight::Normal,
    }
}

/// Whether the row of `hour`:`minute` in the column `diff_current_day` days from
/// today is the half hour going on now.
pub fn is_current_slot(hour: u32, minute: u32, curr_hh: i64, curr_mm: i64, diff_current_day: i64) -> (b: bool)
    ensures
        b == (diff_current_day == 0 && hour as int == curr_hh && ((minute >= 30) == (curr_mm >= 30))),
{
    let is_current_hour = hour as i64 == curr_hh;
    let is_current_halfhour = (minute >= 30) == (curr_mm >= 30);
    let is_current_day = diff_current_day == 0;
    is_current_day && is_current_hour && is_current_halfhour
}

/// Days from today's weekday to the weekday of `date`.
pub fn day_offset(date: CalDate, curr_day: u32) -> (d: i64)
    requires
        date.in_range(),
    ensures
        d == (date.number() + 4) % 7 - curr_day,
{
    weekday_from_sunday(date) as i64 - curr_day as i64
}

/// The start of a selection is at or before its end, and there is no end without a
/// start.
pub open spec fn selection_ordered(m: MainWindowData) -> bool {
    m.selected_main_end is Some ==> (m.selected_main_init is Some && m.selected_main_init->0
        <= m.selected_main_end->0)
}

/// The span from `start` to `end` when both are known and in order.
pub open spec fn span_spec(start: Option<i64>, end: Option<i64>) -> Option<(i64, i64)> {
    match (start, end) {
        (Some(s), Some(e)) => if s <= e {
            Some((s, e))
        } else {
            None
        },
        _ => None,
    }
}

/// The span from `start` to `end`: `None` when either is unknown or the end comes
/// before the start.
pub fn span_of(start: Option<i64>, end: Option<i64>) -> (r: Option<(i64, i64)>)
    ensures
        r == span_spec(start, end),
{
    match (start, end) {
        (Some(s), Some(e)) => {
            if s <= e {
                Some((s, e))
            } else {
                None
            }
        },
        _ => None,
    }
}

/// The span a click on the heading of `date` selects: from 00:00:00 to 23:59:59 local
/// time on that day; `None` when the machine's time zone gives one of the two no single
/// moment, or puts the end before the start.
pub fn day_span(date: CalDate) -> (r: Option<(i64, i64)>)
    requires
        date.in_range(),
    ensures
        r matches Some(span) ==> {
            &&& span.0 <= span.1
            &&& date.number() * 86400 - 86400 < span.0 < date.number() * 86400 + 86400
            &&& date.number() * 86400 + 86399 - 86400 < span.1 < date.number() * 86400 + 86399 + 86400
        },
{
    let start = local_timestamp(date, 0, 0, 0);
    let end = local_timestamp(date, 23, 59, 59);
    span_of(start, end)
}

/// The local timestamp of the cell at `hour`:`minute` in the column `diff` days from
/// the day of `today` (a column of the week of `today`); `None` when the machine's time
/// zone gives that local time no single moment.
pub fn cell_timestamp(today: &LocalDateTime, diff: i64, hour: u32, minute: u32) -> (r: Option<i64>)
    requires
        today.date.in_range(),
        week_fits(*today),
        0 <= (today.date.number() + 4) % 7 + diff <= 6,
        hour < 24,
        minute < 60,
    ensures
        r matches Some(t) ==> (today.date.number() + diff) * 86400 + hour * 3600 + minute * 60 - 86400 < t < (
        today.date.number() + diff) * 86400 + hour * 3600 + minute * 60 + 86400,
{
    let date = shift_date(today.date, diff);
    local_timestamp(date, hour, minute, 0)
}

impl MainWindowData {
    /// Seven day columns and 48 half-hour rows.
    pub open spec fn well_formed(&self) -> bool {
        self.table_header@.len() == 7 && self.table_body@.len() == 48
    }

    /// Nothing selected, no table yet, the columns dated `date` and every heading empty.
    fn empty_at(date: CalDate) -> (mwd: Self)
        ensures
            mwd.well_formed(),
            mwd.selected_main_init is None,
            mwd.selected_main_end is None,
            mwd.daytime_generated is None,
            forall|i: int| 0 <= i < 7 ==> (#[trigger] mwd.table_header@[i]).0@ == Seq::<char>::empty()
                && mwd.table_header@[i].1 == date,
            forall|k: int| 0 <= k < 48 ==> (#[trigger] mwd.table_body@[k]).0@ == Seq::<char>::empty()
                && mwd.table_body@[k].1 == 0 && mwd.table_body@[k].2 == 0,
    {
        let mut table_header: Vec<(String, CalDate)> = Vec::new();
        let mut i: usize = 0;
        while i < 7
            invariant
                i <= 7,
                table_header@.len() == i,
                forall|j: int| 0 <= j < i ==> (#[trigger] table_header@[j]).0@ == Seq::<char>::empty()
                    && table_header@[j].1 == date,
            decreases 7 - i,
        {
            table_header.push((String::new(), date));
            i = i + 1;
        }
        let mut table_body: Vec<(String, u32, u32)> = Vec::new();
        let mut k: usize = 0;
        while k < 48
            invariant
                k <= 48,
                table_body@.len() == k,
                forall|j: int| 0 <= j < k ==> (#[trigger] table_body@[j]).0@ == Seq::<char>::empty()
                    && table_body@[j].1 == 0 && table_body@[j].2 == 0,
            decreases 48 - k,
        {
            table_body.push((String::new(), 0, 0));
            k = k + 1;
        }
        MainWindowData {
            selected_main_init: None,
            selected_main_end: None,
            daytime_generated: None,
            table_header,
            table_body,
        }
    }

    /// Forgets the selection.
    pub fn clear_selection(&mut self)
        ensures
            final(self).selected_main_init is None,
            final(self).selected_main_end is None,
            selection_ordered(*final(self)),
            final(self).daytime_generated == old(self).daytime_generated,
            final(self).table_header == old(self).table_header,
            final(self).table_body == old(self).table_body,
    {
        self.selected_main_init = None;
        self.selected_main_end = None;
    }

    /// Selects the span from `start` to `end`, as a click on a day's heading does.
    pub fn select_span(&mut self, start: i64, end: i64)
        requires
            start <= end,
        ensures
            selection_ordered(*final(self)),
            final(self).selected_main_init == Some(start),
            final(self).selected_main_end == Some(end),
            final(self).daytime_generated == old(self).daytime_generated,
            final(self).table_header == old(self).table_header,
            final(self).table_body == old(self).table_body,
    {
        self.selected_main_init = Some(start);
        self.selected_main_end = Some(end);
    }

    /// A click on the cell that starts at `timestamp`.
    pub fn click_slot(&mut self, timestamp: i64)
        ensures
            selection_ordered(*final(self)),
            (final(self).selected_main_init, final(self).selected_main_end) == selection_after_click(
                old(self).selected_main_init,
                old(self).selected_main_end,
                timestamp,
            ),
            final(self).daytime_generated == old(self).daytime_generated,
            final(self).table_header == old(self).table_header,
            final(self).table_body == old(self).table_body,
    {
        if self.selected_main_init.is_none() || self.selected_main_end.is_some() {
            self.selected_main_init = Some(timestamp);
            self.selected_main_end = None;
        } else if let Some(sel_init) = self.selected_main_init {
            self.selected_main_init = Some(if timestamp <= sel_init { timestamp } else { sel_init });
            self.selected_main_end = Some(if timestamp >= sel_init { timestamp } else { sel_init });
        }
    }
}

impl Default for MainWindowData {
    /// Nothing selected and no table yet; the columns are dated today until the table
    /// is filled.
    fn default() -> (mwd: Self)
        ensures
            mwd.well_formed(),
            mwd.selected_main_init is None,
            mwd.selected_main_end is None,
            mwd.daytime_generated is None,
            forall|i: int| 0 <= i < 7 ==> (#[trigger] mwd.table_header@[i]).0@ == Seq::<char>::empty(),
            forall|k: int| 0 <= k < 48 ==> (#[trigger] mwd.table_body@[k]).0@ == Seq::<char>::empty()
                && mwd.table_body@[k].1 == 0 && mwd.table_body@[k].2 == 0,
    {
        Self::empty_at(local_now().date)
    }
}

/// The day number of the Sunday that starts the week of `date`.
pub open spec fn week_start(date: CalDate) -> int {
    date.number() - (date.number() + 4) % 7
}

/// The week (Sunday to Saturday) of `daytime` lies within the dates that `chrono`
/// represents.
pub open spec fn week_fits(daytime: LocalDateTime) -> bool {
    &&& day_number(MIN_YEAR as int, 1, 1) <= week_start(daytime.date)
    &&& week_start(daytime.date) + 6 <= day_number(MAX_YEAR as int, 12, 31)
}

/// The table was filled on the day of `daytime` already, and is kept.
pub open spec fn keeps_table(m: MainWindowData, daytime: LocalDateTime) -> bool {
    m.daytime_generated matches Some(g) && g.date == daytime.date
}

/// What `generate_table` may be called with: a table of the right shape, a moment whose
/// date `chrono` represents, and, when the table is to be filled, a week that `chrono`
/// represents.
pub open spec fn can_generate(m: MainWindowData, daytime: LocalDateTime) -> bool {
    &&& m.well_formed()
    &&& daytime.date.in_range()
    &&& daytime.seconds_of_day < 86400
    &&& !keeps_table(m, daytime) ==> week_fits(daytime)
}

/// The weekday of the moment (days after Sunday), its hour and its minute.
pub open spec fn moment_parts(daytime: LocalDateTime) -> (u32, i64, i64) {
    (
        ((daytime.date.number() + 4) % 7) as u32,
        (daytime.seconds_of_day / 3600) as i64,
        ((daytime.seconds_of_day / 60) % 60) as i64,
    )
}

/// The table as it is filled for the week of `daytime`: column `i` is the day `i`
/// days after that week's Sunday, row `k` the half hour `k / 2` o'clock and
/// `30 * (k % 2)` minutes.
pub open spec fn table_filled_for(m: MainWindowData, daytime: LocalDateTime) -> bool {
    let weekday = (daytime.date.number() + 4) % 7;
    &&& m.well_formed()
    &&& forall|i: int|
        0 <= i < 7 ==> {
            &&& (#[trigger] m.table_header@[i]).1.in_range()
            &&& m.table_header@[i].1.number() == daytime.date.number() + i - weekday
            &&& m.table_header@[i].0@ == header_label(i, m.table_header@[i].1)
        }
    &&& forall|k: int|
        0 <= k < 48 ==> {
            &&& (#[trigger] m.table_body@[k]).1 == k / 2
            &&& m.table_body@[k].2 == 30 * (k % 2)
            &&& m.table_body@[k].0@ == slot_label(k / 2, 30 * (k % 2))
        }
}

fn fill_header(header: &mut Vec<(String, CalDate)>, daytime: &LocalDateTime, day: u32)
    requires
        old(header)@.len() == 7,
        daytime.date.in_range(),
        week_fits(*daytime),
        day as int == (daytime.date.number() + 4) % 7,
    ensures
        final(header)@.len() == 7,
        forall|i: int|
            0 <= i < 7 ==> {
                &&& (#[trigger] final(header)@[i]).1.in_range()
                &&& final(header)@[i].1.number() == daytime.date.number() + i - day
                &&& final(header)@[i].0@ == header_label(i, final(header)@[i].1)
            },
{
    let mut didx: usize = 0;
    while didx < 7
        invariant
            didx <= 7,
            day as int == (daytime.date.number() + 4) % 7,
            daytime.date.in_range(),
            week_fits(*daytime),
            header@.len() == 7,
            forall|i: int|
                0 <= i < didx ==> {
                    &&& (#[trigger] header@[i]).1.in_range()
                    &&& header@[i].1.number() == daytime.date.number() + i - day
                    &&& header@[i].0@ == header_label(i, header@[i].1)
                },
        decreases 7 - didx,
    {
        let dfull = shift_date(daytime.date, didx as i64 - day as i64);
        let mut label = String::from_str(day_name(didx));
        label.append(" (");
        label.append(two_digit_text(dfull.day).as_str());
        label.append("/");
        label.append(two_digit_text(dfull.month).as_str());
        label.append(")");
        header.set(didx, (label, dfull));
        didx = didx + 1;
    }
}

fn fill_body(body: &mut Vec<(String, u32, u32)>)
    requires
        old(body)@.len() == 48,
    ensures
        final(body)@.len() == 48,
        forall|k: int|
            0 <= k < 48 ==> {
                &&& (#[trigger] final(body)@[k]).1 == k / 2
                &&& final(body)@[k].2 == 30 * (k % 2)
                &&& final(body)@[k].0@ == slot_label(k / 2, 30 * (k % 2))
            },
{
    let mut h: usize = 0;
    while h < 24
        invariant
            h <= 24,
            body@.len() == 48,
            forall|k: int|
                0 <= k < 2 * h ==> {
                    &&& (#[trigger] body@[k]).1 == k / 2
                    &&& body@[k].2 == 30 * (k % 2)
                    &&& body@[k].0@ == slot_label(k / 2, 30 * (k % 2))
                },
        decreases 24 - h,
    {
        let mut midx: usize = 0;
        while midx < 2
            invariant
                h < 24,
                midx <= 2,
                body@.len() == 48,
                forall|k: int|
                    0 <= k < 2 * h + midx ==> {
                        &&& (#[trigger] body@[k]).1 == k / 2
                        &&& body@[k].2 == 30 * (k % 2)
                        &&& body@[k].0@ == slot_label(k / 2, 30 * (k % 2))
                    },
            decreases 2 - midx,
        {
            let m: u32 = if midx == 0 { 0 } else { 30 };
            let mut label = two_digit_text(h as u32);
            label.append(":");
            label.append(two_digit_text(m).as_str());
            body.set(h * 2 + midx, (label, h as u32, m));
            midx = midx + 1;
        }
        h = h + 1;
    }
}

/// Whether the week of `daytime` lies within the dates that `chrono` represents.
pub fn week_fits_in_range(daytime: &LocalDateTime) -> (b: bool)
    requires
        daytime.date.in_range(),
    ensures
        b == week_fits(*daytime),
{
    let y = daytime.date.year;
    let m = daytime.date.month;
    let d = daytime.date.day;
    let w = weekday_from_sunday(daytime.date);
    let doy = day_of_year(y, m, d);
    proof {
        lemma_day_of_year(y as int, m as int, d as int);
        assert(day_number(MIN_YEAR as int, 1, 1) == -96465292);
        assert(day_number(MAX_YEAR as int, 1, 1) == 95025872);
        assert(day_number(MAX_YEAR as int, 12, 31) == 95026236);
        lemma_date_within_year(y as int, m as int, d as int);
        lemma_year_start_monotonic(MIN_YEAR as int, y as int);
        lemma_year_start_monotonic(y as int, MAX_YEAR as int);
        if y > MIN_YEAR {
            lemma_year_start_monotonic(MIN_YEAR + 1, y as int);
            lemma_year_step(MIN_YEAR as int);
        }
        if y < MAX_YEAR {
            lemma_year_start_monotonic(y + 1, MAX_YEAR as int);
        }
    }
    (y > MIN_YEAR || doy >= w) && (y < MAX_YEAR || doy + 6 - w <= 364)
}

/// `new` and `r` are the table and the result of `generate_table` on `old` at
/// `daytime`: the weekday (days after Sunday), hour and minute of `daytime`; the table
/// kept when it was filled on that day, else filled for the week of `daytime`.
pub open spec fn table_generated(old: MainWindowData, new: MainWindowData, daytime: LocalDateTime, r: (u32, i64, i64)) -> bool {
    &&& r == moment_parts(daytime)
    &&& keeps_table(old, daytime) ==> new == old
    &&& !keeps_table(old, daytime) ==> {
        &&& table_filled_for(new, daytime)
        &&& new.daytime_generated == Some(daytime)
        &&& new.selected_main_init == old.selected_main_init
        &&& new.selected_main_end == old.selected_main_end
    }
}

impl MainWindowData {
    /// Fills the table for `now` as `generate_table` does when `chrono` represents the
    /// date of `now` and, if the table is to be filled, its week; otherwise `None`, with
    /// nothing changed.
    pub fn generate_table_at(&mut self, now: &LocalDateTime) -> (r: Option<(u32, i64, i64)>)
        requires
            old(self).well_formed(),
            now.seconds_of_day < 86400,
        ensures
            r is None <==> !(now.date.in_range() && (keeps_table(*old(self), *now) || week_fits(*now))),
            r is None ==> *final(self) == *old(self),
            r matches Some(p) ==> table_generated(*old(self), *final(self), *now, p),
    {
        if !date_is_in_range(now.date.year, now.date.month, now.date.day) {
            return None;
        }
        let keeps = match self.daytime_generated {
            Some(g) => g.date == now.date,
            None => false,
        };
        if !keeps && !week_fits_in_range(now) {
            return None;
        }
        Some(self.generate_table(now))
    }

    /// Reads the local time and fills the table for it as `generate_table_at` does;
    /// returns the moment read with the result.
    pub fn generate_table_now(&mut self) -> (r: (LocalDateTime, Option<(u32, i64, i64)>))
        requires
            old(self).well_formed(),
        ensures
            r.0.seconds_of_day < 86400,
            r.1 is None <==> !(r.0.date.in_range() && (keeps_table(*old(self), r.0) || week_fits(r.0))),
            r.1 is None ==> *final(self) == *old(self),
            r.1 matches Some(p) ==> table_generated(*old(self), *final(self), r.0, p),
    {
        let now = local_now();
        let parts = self.generate_table_at(&now);
        (now, parts)
    }

    /// Fills the table for the week of `daytime`, unless it was filled on the same
    /// day already, and returns the weekday (days after Sunday), hour and minute of
    /// `daytime`.
    pub fn generate_table(&mut self, daytime: &LocalDateTime) -> (r: (u32, i64, i64))
        requires
            can_generate(*old(self), *daytime),
        ensures
            table_generated(*old(self), *final(self), *daytime, r),
    {
        let day = weekday_from_sunday(daytime.date);
        let secs = daytime.seconds_of_day as i64;
        let hh = secs / 3600;
        let mm = (secs / 60) % 60;
        let ret_value = (day, hh, mm);
        match self.daytime_generated {
            Some(daytime_generated) if daytime_generated.date == daytime.date => {
                return ret_value;
            },
            _ => {},
        }
        fill_header(&mut self.table_header, daytime, day);
        fill_body(&mut self.table_body);
        self.daytime_generated = Some(*daytime);
        ret_value
    }
}

/// Filling the table keeps a selection whose start is at or before its end so.
pub proof fn lemma_table_keeps_selection_ordered(
    old: MainWindowData,
    new: MainWindowData,
    daytime: LocalDateTime,
    r: (u32, i64, i64),
)
    requires
        table_generated(old, new, daytime, r),
        selection_ordered(old),
    ensures
        selection_ordered(new),
{
}

/// A cell in the selection (between its two ends when it is finished, within the half
/// hour after its start when only the start is chosen) is highlighted as selected,
/// whatever else holds; any other cell is highlighted as the current half hour when it
/// is that, else as today when it lies in today, else not at all. In particular the
/// current half hour is highlighted as such when nothing is selected.
pub proof fn lemma_highlight_priority(
    init: Option<i64>,
    end: Option<i64>,
    timestamp: i64,
    is_current: bool,
    is_current_day: bool,
)
    ensures
        ({
            let selected = match (init, end) {
                (Some(s), Some(e)) => s <= timestamp && timestamp <= e,
                (Some(s), None) => s <= timestamp && timestamp < s + 1800,
                _ => false,
            };
            let h = highlight_of(init, end, timestamp, is_current, is_current_day);
            &&& selected ==> h == CellHighlight::Selected
            &&& (!selected && is_current) ==> h == CellHighlight::CurrentSlot
            &&& (!selected && !is_current && is_current_day) ==> h == CellHighlight::CurrentDay
            &&& (!selected && !is_current && !is_current_day) ==> h == CellHighlight::Normal
        }),
{
}

/// Two clicks from a cleared or finished selection select the span between the two
/// cells, whichever was clicked first; a third click starts a new selection.
pub proof fn lemma_two_clicks_select_span(init: Option<i64>, end: Option<i64>, a: i64, b: i64, c: i64)
    requires
        init is None || end is Some,
    ensures
        ({
            let first = selection_after_click(init, end, a);
            let second = selection_after_click(first.0, first.1, b);
            &&& second.0 == Some(if a <= b { a } else { b })
            &&& second.1 == Some(if a <= b { b } else { a })
            &&& selection_after_click(second.0, second.1, c) == (Some(c), None::<i64>)
        }),
{
}

/// A cell is highlighted as selected exactly when it lies within a finished
/// selection, or within the half hour after the start of an unfinished one.
pub proof fn lemma_selected_cells(init: i64, end: i64, timestamp: i64, is_current: bool, is_current_day: bool)
    ensures
        (highlight_of(Some(init), Some(end), timestamp, is_current, is_current_day) == CellHighlight::Selected)
            <==> (init <= timestamp <= end),
        (highlight_of(Some(init), None, timestamp, is_current, is_current_day) == CellHighlight::Selected)
            <==> (init <= timestamp < init + 1800),
{
}

} // verus!
