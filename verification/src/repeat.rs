//! How often a task repeats: a whole number of months (years and months) plus a
//! whole number of seconds (weeks, days, hours, minutes and seconds).

use crate::text::{decimal, int_text};
use vstd::prelude::*;

verus! {

/// The values an `i64` holds.
pub open spec fn is_i64(x: int) -> bool {
    i64::MIN <= x <= i64::MAX
}

/// Quotient of `a` by a positive `b`, rounded toward zero as Rust's `/` does.
pub open spec fn trunc_div(a: int, b: int) -> int {
    if a >= 0 {
        a / b
    } else {
        -((-a) / b)
    }
}

/// Remainder that goes with `trunc_div`: it has the sign of `a`, as Rust's `%` does.
pub open spec fn trunc_rem(a: int, b: int) -> int {
    a - b * trunc_div(a, b)
}

/// Seconds of a period of weeks, days, hours, minutes and seconds.
pub open spec fn regular_seconds(w: int, d: int, h: int, m: int, s: int) -> int {
    (((w * 7 + d) * 24 + h) * 60 + m) * 60 + s
}

/// Every intermediate value of `regular_seconds`, computed left to right, fits in `i64`.
pub open spec fn regular_fits(w: int, d: int, h: int, m: int, s: int) -> bool {
    &&& is_i64(w * 7)
    &&& is_i64(w * 7 + d)
    &&& is_i64((w * 7 + d) * 24)
    &&& is_i64((w * 7 + d) * 24 + h)
    &&& is_i64(((w * 7 + d) * 24 + h) * 60)
    &&& is_i64(((w * 7 + d) * 24 + h) * 60 + m)
    &&& is_i64((((w * 7 + d) * 24 + h) * 60 + m) * 60)
    &&& is_i64(regular_seconds(w, d, h, m, s))
}

/// Months of a period of years and months.
pub open spec fn irregular_months(y: int, m: int) -> int {
    12 * y + m
}

/// `12 * y` and `12 * y + m` fit in `i64`.
pub open spec fn irregular_fits(y: int, m: int) -> bool {
    is_i64(12 * y) && is_i64(irregular_months(y, m))
}

/// The seven components (years, months, weeks, days, hours, minutes, seconds) that
/// `RepeatPeriod::spread` reads off a period: each one is the quotient of the one
/// after it, except the days, which are the whole number of days of the period.
pub open spec fn spread_of(months: int, seconds: int) -> (int, int, int, int, int, int, int) {
    let total_minutes = trunc_div(seconds, 60);
    let total_hours = trunc_div(total_minutes, 60);
    let total_days = trunc_div(total_hours, 24);
    (
        trunc_div(months, 12),
        trunc_rem(months, 12),
        trunc_div(total_days, 7),
        total_days,
        trunc_rem(total_hours, 24),
        trunc_rem(total_minutes, 60),
        trunc_rem(seconds, 60),
    )
}

/// Components of a period in which each one is below the next unit up: no more than
/// eleven months, six days, 23 hours, 59 minutes and 59 seconds, and nothing negative.
pub open spec fn is_canonical(c: (int, int, int, int, int, int, int)) -> bool {
    &&& 0 <= c.0
    &&& 0 <= c.1 < 12
    &&& 0 <= c.2
    &&& 0 <= c.3 < 7
    &&& 0 <= c.4 < 24
    &&& 0 <= c.5 < 60
    &&& 0 <= c.6 < 60
}

/// The part of a period that is a fixed number of seconds.
#[derive(Clone, Copy, Debug)]
pub struct RegularRepeatPeriod {
    pub seconds: i64,
}

/// The part of a period that is a number of months, whose length varies.
#[derive(Clone, Copy, Debug)]
pub struct IrregularRepeatPeriod {
    pub months: i64,
}

/// A repeat period: the months and the seconds add up to the whole period.
#[derive(Clone, Copy, Debug)]
pub struct RepeatPeriod {
    pub regular: RegularRepeatPeriod,
    pub irregular: IrregularRepeatPeriod,
}

impl Default for RegularRepeatPeriod {
    fn default() -> (r: Self)
        ensures
            r.seconds == 0,
    {
        RegularRepeatPeriod { seconds: 0 }
    }
}

impl Default for IrregularRepeatPeriod {
    fn default() -> (r: Self)
        ensures
            r.months == 0,
    {
        IrregularRepeatPeriod { months: 0 }
    }
}

impl Default for RepeatPeriod {
    fn default() -> (r: Self)
        ensures
            r.regular.seconds == 0,
            r.irregular.months == 0,
    {
        RepeatPeriod { regular: RegularRepeatPeriod::default(), irregular: IrregularRepeatPeriod::default() }
    }
}

impl RegularRepeatPeriod {
    /// The period of `w` weeks, `d` days, `h` hours, `m` minutes and `s` seconds.
    pub fn new(w: i64, d: i64, h: i64, m: i64, s: i64) -> (r: Self)
        requires
            regular_fits(w as int, d as int, h as int, m as int, s as int),
        ensures
            r.seconds == regular_seconds(w as int, d as int, h as int, m as int, s as int),
    {
        Self { seconds: (((w * 7 + d) * 24 + h) * 60 + m) * 60 + s }
    }
}

impl IrregularRepeatPeriod {
    /// The period of `y` years and `m` months.
    pub fn new(y: i64, m: i64) -> (r: Self)
        requires
            irregular_fits(y as int, m as int),
        ensures
            r.months == irregular_months(y as int, m as int),
    {
        Self { months: 12 * y + m }
    }
}

impl RepeatPeriod {
    /// The period of `y` years, `mo` months, `w` weeks, `d` days, `h` hours, `mi`
    /// minutes and `s` seconds.
    pub fn new(y: i64, mo: i64, w: i64, d: i64, h: i64, mi: i64, s: i64) -> (r: Self)
        requires
            irregular_fits(y as int, mo as int),
            regular_fits(w as int, d as int, h as int, mi as int, s as int),
        ensures
            r.irregular.months == irregular_months(y as int, mo as int),
            r.regular.seconds == regular_seconds(w as int, d as int, h as int, mi as int, s as int),
    {
        Self { irregular: IrregularRepeatPeriod::new(y, mo), regular: RegularRepeatPeriod::new(w, d, h, mi, s) }
    }

    /// The period as years, months, weeks, days, hours, minutes and seconds.
    pub fn spread(&self) -> (r: (i64, i64, i64, i64, i64, i64, i64))
        ensures
            (r.0 as int, r.1 as int, r.2 as int, r.3 as int, r.4 as int, r.5 as int, r.6 as int)
                == spread_of(self.irregular.months as int, self.regular.seconds as int),
    {
        let seconds = self.regular.seconds;
        let months = self.irregular.months;
        let mi = seconds / 60;
        let s = seconds % 60;
        let h = mi / 60;
        let mi = mi % 60;
        let d = h / 24;
        let h = h % 24;
        let w = d / 7;
        let mo = months % 12;
        let y = months / 12;
        (y, mo, w, d, h, mi, s)
    }
}

/// Text of a period of seconds: "{w} weeks {d} days {h} hours {m} minutes {s} seconds",
/// the days taken below a week.
pub open spec fn regular_text(seconds: int) -> Seq<char> {
    let c = spread_of(0, seconds);
    decimal(c.2) + " weeks "@ + decimal(trunc_rem(c.3, 7)) + " days "@ + decimal(c.4) + " hours "@
        + decimal(c.5) + " minutes "@ + decimal(c.6) + " seconds"@
}

/// Text of a period of months: "{y} years {m} months".
pub open spec fn irregular_text(months: int) -> Seq<char> {
    decimal(trunc_div(months, 12)) + " years "@ + decimal(trunc_rem(months, 12)) + " months"@
}

impl RegularRepeatPeriod {
    /// "{w} weeks {d} days {h} hours {m} minutes {s} seconds".
    pub fn to_string(&self) -> (text: String)
        ensures
            text@ == regular_text(self.seconds as int),
    {
        let mut m = self.seconds / 60;
        let mut h = m / 60;
        let mut d = h / 24;
        let w = d / 7;
        let s = self.seconds % 60;
        d = d % 7;
        h = h % 24;
        m = m % 60;
        let mut text = int_text(w);
        text.append(" weeks ");
        text.append(int_text(d).as_str());
        text.append(" days ");
        text.append(int_text(h).as_str());
        text.append(" hours ");
        text.append(int_text(m).as_str());
        text.append(" minutes ");
        text.append(int_text(s).as_str());
        text.append(" seconds");
        text
    }
}

impl IrregularRepeatPeriod {
    /// "{y} years {m} months".
    pub fn to_string(&self) -> (text: String)
        ensures
            text@ == irregular_text(self.months as int),
    {
        let y = self.months / 12;
        let m = self.months % 12;
        let mut text = int_text(y);
        text.append(" years ");
        text.append(int_text(m).as_str());
        text.append(" months");
        text
    }
}

impl RepeatPeriod {
    /// The months part, a space, then the seconds part.
    pub fn to_string(&self) -> (text: String)
        ensures
            text@ == irregular_text(self.irregular.months as int) + " "@ + regular_text(
                self.regular.seconds as int,
            ),
    {
        let mut text = self.irregular.to_string();
        text.append(" ");
        text.append(self.regular.to_string().as_str());
        text
    }
}

/// Building a period from components that are each below the next unit up, then
/// spreading it, gives the components back, except the days, which come back as the
/// whole number of days (the weeks counted in).
pub proof fn lemma_spread_of_new(c: (int, int, int, int, int, int, int))
    requires
        is_canonical(c),
    ensures
        spread_of(irregular_months(c.0, c.1), regular_seconds(c.2, c.3, c.4, c.5, c.6))
            == (c.0, c.1, c.2, 7 * c.2 + c.3, c.4, c.5, c.6),
{
    let total_days = 7 * c.2 + c.3;
    let total_hours = total_days * 24 + c.4;
    let total_minutes = total_hours * 60 + c.5;
    let seconds = total_minutes * 60 + c.6;
    assert(regular_seconds(c.2, c.3, c.4, c.5, c.6) == seconds);
    assert(seconds / 60 == total_minutes);
    assert(total_minutes / 60 == total_hours);
    assert(total_hours / 24 == total_days);
    assert(total_days / 7 == c.2);
    assert(irregular_months(c.0, c.1) / 12 == c.0);
}

/// Spreading a period and building one again from the components gives the same
/// months, and the same seconds plus one more week for every whole week of the
/// period (the spread days already count the weeks).
pub proof fn lemma_new_of_spread(months: int, seconds: int)
    ensures
        ({
            let c = spread_of(months, seconds);
            &&& irregular_months(c.0, c.1) == months
            &&& regular_seconds(c.2, c.3, c.4, c.5, c.6) == seconds + 604800 * c.2
        }),
{
}

/// A period of less than a week, spread and built again, is the same period.
pub proof fn lemma_new_of_spread_within_week(months: int, seconds: int)
    requires
        -604800 < seconds < 604800,
    ensures
        ({
            let c = spread_of(months, seconds);
            &&& irregular_months(c.0, c.1) == months
            &&& regular_seconds(c.2, c.3, c.4, c.5, c.6) == seconds
        }),
{
    lemma_new_of_spread(months, seconds);
    let c = spread_of(months, seconds);
    assert(c.2 == 0);
}

} // verus!
