//! The "-" / "+" counters of the editing window: a value that steps down or up by
//! one within bounds, wrapping around from one bound to the other when it cycles.

use vstd::prelude::*;

verus! {

/// The value after a press of "-" (when `minus_clicked`): the press counts when the
/// value is not yet at the lower bound, or when the counter cycles; at the lower bound
/// it jumps to the upper one.
pub open spec fn counter_after_minus(counter: int, min: int, max: int, cycle: bool, minus_clicked: bool) -> int {
    if minus_clicked && (counter > min || cycle) {
        if counter == min { max } else { counter - 1 }
    } else {
        counter
    }
}

/// The value after a press of "-" (when `minus_clicked`) and then of "+" (when
/// `plus_clicked`). A press counts when the value shown before the presses is not yet
/// at the bound it moves toward, or when the counter cycles; at that bound it jumps
/// to the other one.
pub open spec fn counter_after(counter: int, min: int, max: int, cycle: bool, minus_clicked: bool, plus_clicked: bool) -> int {
    let after_minus = counter_after_minus(counter, min, max, cycle, minus_clicked);
    if plus_clicked && (counter < max || cycle) {
        if after_minus == max { min } else { after_minus + 1 }
    } else {
        after_minus
    }
}

/// Neither step of one that the presses take goes past the ends of `i64`: a step
/// down is never taken from `i64::MIN`, a step up never from `i64::MAX`.
pub open spec fn counter_step_in_i64(counter: int, min: int, max: int, cycle: bool, minus_clicked: bool, plus_clicked: bool) -> bool {
    let after_minus = counter_after_minus(counter, min, max, cycle, minus_clicked);
    &&& (minus_clicked && (counter > min || cycle) && counter != min) ==> counter > i64::MIN
    &&& (plus_clicked && (counter < max || cycle) && after_minus != max) ==> after_minus < i64::MAX
}

/// Whether the presses can be taken within `i64`.
pub fn counter_step_fits(counter: i64, min: i64, max: i64, cycle: bool, minus_clicked: bool, plus_clicked: bool) -> (b: bool)
    ensures
        b == counter_step_in_i64(counter as int, min as int, max as int, cycle, minus_clicked, plus_clicked),
{
    let after_minus = if minus_clicked && (counter > min || cycle) {
        if counter == min {
            max
        } else if counter == i64::MIN {
            return false;
        } else {
            counter - 1
        }
    } else {
        counter
    };
    !(plus_clicked && (counter < max || cycle) && after_minus != max && after_minus == i64::MAX)
}

/// The value a counter holds after its buttons were read.
pub fn ui_counter_step(counter: i64, min: i64, max: i64, cycle: bool, minus_clicked: bool, plus_clicked: bool) -> (r: i64)
    requires
        counter_step_in_i64(counter as int, min as int, max as int, cycle, minus_clicked, plus_clicked),
    ensures
        r == counter_after(counter as int, min as int, max as int, cycle, minus_clicked, plus_clicked),
{
    let mut ret = counter;
    if minus_clicked && (counter > min || cycle) {
        ret = if ret == min { max } else { ret - 1 };
    }
    if plus_clicked && (counter < max || cycle) {
        ret = if ret == max { min } else { ret + 1 };
    }
    ret
}

/// A counter within its bounds never steps past the ends of `i64`.
pub proof fn lemma_counter_in_bounds_fits(counter: int, min: int, max: int, cycle: bool, minus_clicked: bool, plus_clicked: bool)
    requires
        min <= counter <= max,
        i64::MIN <= min,
        max <= i64::MAX,
    ensures
        counter_step_in_i64(counter, min, max, cycle, minus_clicked, plus_clicked),
{
}

/// A counter within its bounds stays within them, whatever was pressed.
pub proof fn lemma_counter_stays_in_bounds(counter: int, min: int, max: int, cycle: bool, minus_clicked: bool, plus_clicked: bool)
    requires
        min <= counter <= max,
    ensures
        min <= counter_after(counter, min, max, cycle, minus_clicked, plus_clicked) <= max,
{
}

/// Without a press the value does not change.
pub proof fn lemma_counter_idle(counter: int, min: int, max: int, cycle: bool)
    ensures
        counter_after(counter, min, max, cycle, false, false) == counter,
{
}

/// On a cycling counter, "+" at the upper bound gives the lower bound and "-" at the
/// lower bound gives the upper bound.
pub proof fn lemma_counter_wraps(min: int, max: int)
    requires
        min < max,
    ensures
        counter_after(max, min, max, true, false, true) == min,
        counter_after(min, min, max, true, true, false) == max,
{
}

/// A press of "+" is undone by a press of "-", and the other way round, on a cycling
/// counter within its bounds, and on any counter that is not at the bound the first
/// press moves toward.
pub proof fn lemma_counter_presses_undo(counter: int, min: int, max: int, cycle: bool)
    requires
        min <= counter <= max,
    ensures
        (cycle || counter < max) ==> counter_after(
            counter_after(counter, min, max, cycle, false, true),
            min,
            max,
            cycle,
            true,
            false,
        ) == counter,
        (cycle || counter > min) ==> counter_after(
            counter_after(counter, min, max, cycle, true, false),
            min,
            max,
            cycle,
            false,
            true,
        ) == counter,
{
}

} // verus!
