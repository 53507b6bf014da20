//! Appointments and tasks: one record type for both, how a new one starts out, its
//! title line, and the ordered lists the application keeps of them.

use crate::calendar::{civil_of, civil_text, lemma_day_number_bounds, now_timestamp, timestamp_in_range, timestamp_text, MAX_YEAR};
use crate::repeat::RepeatPeriod;
use vstd::prelude::*;

verus! {

/// An appointment, or a task when `is_task` holds.
#[derive(Debug)]
pub struct AppointmentOrTask {
    pub is_task: bool,
    pub title: String,
    /// Start, in seconds since 1970-01-01 00:00:00 UTC.
    pub init: i64,
    /// End, in seconds since 1970-01-01 00:00:00 UTC.
    pub end: i64,
    pub text: String,
    pub location: String,
    pub category: String,
    pub repeat_period: RepeatPeriod,
    /// How long before the start the alarm rings, in seconds.
    pub alarm_before: i64,
    pub priority: i32,
    pub status: String,
}

/// One hour, in seconds: the length a new appointment starts out with.
pub const NEW_DURATION: i64 = 3600;

/// All text fields empty, no repeat, no alarm.
pub open spec fn is_blank_besides(a: AppointmentOrTask) -> bool {
    &&& a.title@ == Seq::<char>::empty()
    &&& a.text@ == Seq::<char>::empty()
    &&& a.location@ == Seq::<char>::empty()
    &&& a.category@ == Seq::<char>::empty()
    &&& a.status@ == Seq::<char>::empty()
    &&& a.repeat_period.regular.seconds == 0
    &&& a.repeat_period.irregular.months == 0
    &&& a.alarm_before == 0
}

/// What the editing window starts from for a new entry made at time `now`: one hour
/// long from `now`, priority 1, everything else blank.
pub open spec fn is_new_for_window(a: AppointmentOrTask, is_task: bool, now: int) -> bool {
    &&& is_blank_besides(a)
    &&& a.is_task == is_task
    &&& a.init == now
    &&& a.end == now + 3600
    &&& a.priority == 1
}

impl Default for AppointmentOrTask {
    fn default() -> (a: Self)
        ensures
            is_blank_besides(a),
            !a.is_task,
            a.init == 0,
            a.end == 0,
            a.priority == 0,
    {
        AppointmentOrTask {
            is_task: false,
            title: String::new(),
            init: 0,
            end: 0,
            text: String::new(),
            location: String::new(),
            category: String::new(),
            repeat_period: RepeatPeriod::default(),
            alarm_before: 0,
            priority: 0,
            status: String::new(),
        }
    }
}

/// Timestamps whose date `chrono` represents stay far from the ends of `i64`.
pub proof fn lemma_timestamp_small(secs: int)
    requires
        timestamp_in_range(secs),
    ensures
        -10000000000000 < secs < 10000000000000,
{
    lemma_day_number_bounds(crate::calendar::MIN_YEAR as int, 1, 1);
    lemma_day_number_bounds(MAX_YEAR + 1, 1, 1);
}

impl AppointmentOrTask {
    /// The entry the editing window starts from when it is opened at `now`.
    pub fn new_at(is_task: bool, now: i64) -> (aot: Self)
        requires
            now <= i64::MAX - 3600,
        ensures
            is_new_for_window(aot, is_task, now as int),
    {
        let mut aot = Self::default();
        aot.init = now;
        aot.end = aot.init + NEW_DURATION;
        aot.priority = 1;
        aot.is_task = is_task;
        aot
    }

    /// The entry the editing window starts from, made now.
    pub fn new_for_window(is_task: bool) -> (aot: Self)
        ensures
            is_new_for_window(aot, is_task, aot.init as int),
            timestamp_in_range(aot.init as int),
            0 <= aot.init,
    {
        let now = now_timestamp();
        proof {
            lemma_timestamp_small(now as int);
        }
        Self::new_at(is_task, now)
    }

    /// A copy of this entry.
    pub fn clone(&self) -> (aot: Self)
        ensures
            aot == *self,
    {
        let mut aot = Self::new_for_window(self.is_task);
        aot.init = self.init;
        aot.end = self.end;
        aot.repeat_period = self.repeat_period;
        aot.alarm_before = self.alarm_before;
        aot.priority = self.priority;
        aot.title = self.title.clone();
        aot.text = self.text.clone();
        aot.location = self.location.clone();
        aot.category = self.category.clone();
        aot.status = self.status.clone();
        aot
    }

    /// "{title} | {start}-{end}", start and end written "%Y-%m-%d %H:%M:%S" in UTC.
    pub fn formatted_title(&self) -> (s: String)
        requires
            timestamp_in_range(self.init as int),
            timestamp_in_range(self.end as int),
        ensures
            s@ == self.title@ + " | "@ + civil_text(civil_of(self.init as int)) + "-"@ + civil_text(
                civil_of(self.end as int),
            ),
    {
        let init = timestamp_text(self.init);
        let end = timestamp_text(self.end);
        let mut s = self.title.clone();
        s.append(" | ");
        s.append(init.as_str());
        s.append("-");
        s.append(end.as_str());
        s
    }
}

} // verus!
