use vstd::prelude::*;

verus! {

/// Whether `y` is a leap year of the Gregorian calendar.
pub open spec fn is_leap_year(y: nat) -> bool {
    y % 4 == 0 && (y % 100 != 0 || y % 400 == 0)
}

/// The number of days from 1 January 1900 to 1 January of year `y`.
pub open spec fn days_before_year(y: nat) -> nat
    decreases y,
{
    if y <= 1900 {
        0
    } else {
        days_before_year((y - 1) as nat) + if is_leap_year((y - 1) as nat) {
            366nat
        } else {
            365nat
        }
    }
}

/// The number of days in year `y` before the first day of month `m`.
pub open spec fn days_before_month(y: nat, m: nat) -> nat {
    let before: nat = if m <= 1 {
        0
    } else if m == 2 {
        31
    } else if m == 3 {
        59
    } else if m == 4 {
        90
    } else if m == 5 {
        120
    } else if m == 6 {
        151
    } else if m == 7 {
        181
    } else if m == 8 {
        212
    } else if m == 9 {
        243
    } else if m == 10 {
        273
    } else if m == 11 {
        304
    } else {
        334
    };
    before + if m > 2 && is_leap_year(y) {
        1nat
    } else {
        0nat
    }
}

/// A firmware clock reading in nanoseconds since the start of 1 January 1900.
pub open spec fn wall_clock_ns(
    year: u16,
    month: u8,
    day: u8,
    hour: u8,
    minute: u8,
    second: u8,
    nanosecond: u32,
) -> nat {
    let days = days_before_year(year as nat) + days_before_month(year as nat, month as nat) + day as nat - 1;
    ((((days * 24 + hour as nat) * 60 + minute as nat) * 60 + second as nat) * 1_000_000_000
        + nanosecond as nat) as nat
}

/// The number of days in month `m` of year `y`.
pub open spec fn days_in_month(y: nat, m: nat) -> nat {
    if m == 2 {
        if is_leap_year(y) {
            29
        } else {
            28
        }
    } else if m == 4 || m == 6 || m == 9 || m == 11 {
        30
    } else {
        31
    }
}

/// A date and time that the firmware clock can show.
pub open spec fn valid_reading(
    year: u16,
    month: u8,
    day: u8,
    hour: u8,
    minute: u8,
    second: u8,
    nanosecond: u32,
) -> bool {
    &&& 1900 <= year <= 9999
    &&& 1 <= month <= 12
    &&& 1 <= day <= days_in_month(year as nat, month as nat)
    &&& hour < 24
    &&& minute < 60
    &&& second < 60
    &&& nanosecond < 1_000_000_000
}

/// The days from 1 January 1900 to the given date.
pub open spec fn day_number(year: u16, month: u8, day: u8) -> nat {
    (days_before_year(year as nat) + days_before_month(year as nat, month as nat) + day as nat - 1) as nat
}

/// The nanoseconds from midnight to the given time of day.
pub open spec fn time_of_day(hour: u8, minute: u8, second: u8, nanosecond: u32) -> nat {
    ((hour as nat * 60 + minute as nat) * 60 + second as nat) * 1_000_000_000 + nanosecond as nat
}

proof fn lemma_year_ends_before_next(y1: nat, y2: nat)
    requires
        1900 <= y1 < y2,
    ensures
        days_before_year(y1) + (if is_leap_year(y1) { 366nat } else { 365nat }) <= days_before_year(y2),
    decreases y2,
{
    if y2 > y1 + 1 {
        lemma_year_ends_before_next(y1, (y2 - 1) as nat);
    }
}

proof fn lemma_month_ends_before_next(y: nat, m1: nat, m2: nat)
    requires
        1 <= m1 < m2 <= 12,
    ensures
        days_before_month(y, m1) + days_in_month(y, m1) <= days_before_month(y, m2),
{
}

proof fn lemma_dates_in_order(y1: u16, m1: u8, d1: u8, y2: u16, m2: u8, d2: u8)
    requires
        1900 <= y1 <= 9999,
        1900 <= y2 <= 9999,
        1 <= m1 <= 12,
        1 <= m2 <= 12,
        1 <= d1 <= days_in_month(y1 as nat, m1 as nat),
        1 <= d2 <= days_in_month(y2 as nat, m2 as nat),
        y1 < y2 || (y1 == y2 && m1 < m2) || (y1 == y2 && m1 == m2 && d1 < d2),
    ensures
        day_number(y1, m1, d1) < day_number(y2, m2, d2),
{
    if y1 < y2 {
        lemma_year_ends_before_next(y1 as nat, y2 as nat);
        if m1 < 12 {
            lemma_month_ends_before_next(y1 as nat, m1 as nat, 12);
        }
    } else if m1 < m2 {
        lemma_month_ends_before_next(y1 as nat, m1 as nat, m2 as nat);
    }
}

proof fn lemma_clock_split(
    year: u16,
    month: u8,
    day: u8,
    hour: u8,
    minute: u8,
    second: u8,
    nanosecond: u32,
)
    requires
        valid_reading(year, month, day, hour, minute, second, nanosecond),
    ensures
        wall_clock_ns(year, month, day, hour, minute, second, nanosecond) == day_number(year, month, day) * 86_400_000_000_000 + time_of_day(hour, minute, second, nanosecond),
        time_of_day(hour, minute, second, nanosecond) < 86_400_000_000_000,
{
    let d = day_number(year, month, day);
    let (h, mi, s, n) = (hour as nat, minute as nat, second as nat, nanosecond as nat);
    assert(((((d * 24 + h) * 60 + mi) * 60 + s) * 1_000_000_000 + n) == d * 86_400_000_000_000 + (((h * 60 + mi) * 60 + s) * 1_000_000_000 + n)) by (nonlinear_arith);
    assert(((h * 60 + mi) * 60 + s) * 1_000_000_000 + n < 86_400_000_000_000) by (nonlinear_arith)
        requires h < 24, mi < 60, s < 60, n < 1_000_000_000;
}

/// The clock reading counts up: of two valid readings, the later date and
/// time (compared field by field, from the year down) has the larger value,
/// across the ends of days, months and years.
pub proof fn lemma_clock_is_monotonic(
    y1: u16, m1: u8, d1: u8, h1: u8, mi1: u8, s1: u8, n1: u32,
    y2: u16, m2: u8, d2: u8, h2: u8, mi2: u8, s2: u8, n2: u32,
)
    requires
        valid_reading(y1, m1, d1, h1, mi1, s1, n1),
        valid_reading(y2, m2, d2, h2, mi2, s2, n2),
        (y1, m1, d1) != (y2, m2, d2) ==> (y1 < y2 || (y1 == y2 && m1 < m2) || (y1 == y2 && m1 == m2 && d1 < d2)),
        (y1, m1, d1) == (y2, m2, d2) ==> (h1 < h2 || (h1 == h2 && mi1 < mi2) || (h1 == h2 && mi1 == mi2 && s1 < s2) || (h1 == h2 && mi1 == mi2 && s1 == s2 && n1 < n2)),
    ensures
        wall_clock_ns(y1, m1, d1, h1, mi1, s1, n1) < wall_clock_ns(y2, m2, d2, h2, mi2, s2, n2),
{
    lemma_clock_split(y1, m1, d1, h1, mi1, s1, n1);
    lemma_clock_split(y2, m2, d2, h2, mi2, s2, n2);
    let t1 = time_of_day(h1, mi1, s1, n1);
    let t2 = time_of_day(h2, mi2, s2, n2);
    let a = day_number(y1, m1, d1);
    let b = day_number(y2, m2, d2);
    if (y1, m1, d1) != (y2, m2, d2) {
        lemma_dates_in_order(y1, m1, d1, y2, m2, d2);
        assert(a * 86_400_000_000_000 + t1 < b * 86_400_000_000_000 + t2) by (nonlinear_arith)
            requires a < b, t1 < 86_400_000_000_000;
    } else {
        let (ha, ma, sa, na) = (h1 as nat, mi1 as nat, s1 as nat, n1 as nat);
        let (hb, mb, sb, nb) = (h2 as nat, mi2 as nat, s2 as nat, n2 as nat);
        assert(t1 < t2) by (nonlinear_arith)
            requires
                t1 == ((ha * 60 + ma) * 60 + sa) * 1_000_000_000 + na,
                t2 == ((hb * 60 + mb) * 60 + sb) * 1_000_000_000 + nb,
                ma < 60, sa < 60, na < 1_000_000_000, mb < 60, sb < 60, nb < 1_000_000_000,
                ha < hb || (ha == hb && ma < mb) || (ha == hb && ma == mb && sa < sb) || (ha == hb && ma == mb && sa == sb && na < nb);
    }
}

fn is_leap(y: u16) -> (r: bool)
    ensures
        r == is_leap_year(y as nat),
{
    y % 4 == 0 && (y % 100 != 0 || y % 400 == 0)
}

/// The timestamp of a clock reading; the fields are in the ranges that the
/// firmware clock uses.
pub fn timestamp(
    year: u16,
    month: u8,
    day: u8,
    hour: u8,
    minute: u8,
    second: u8,
    nanosecond: u32,
) -> (r: u128)
    requires
        1900 <= year <= 9999,
        1 <= month <= 12,
        1 <= day <= 31,
        hour < 24,
        minute < 60,
        second < 60,
        nanosecond < 1_000_000_000,
    ensures
        r == wall_clock_ns(year, month, day, hour, minute, second, nanosecond),
{
    let mut days: u128 = 0;
    let mut y: u16 = 1900;
    while y < year
        invariant
            1900 <= y <= year <= 9999,
            days == days_before_year(y as nat),
            days <= 366 * (y - 1900),
        decreases year - y,
    {
        if is_leap(y) {
            days += 366;
        } else {
            days += 365;
        }
        y += 1;
    }
    let before: u128 = if month <= 1 {
        0
    } else if month == 2 {
        31
    } else if month == 3 {
        59
    } else if month == 4 {
        90
    } else if month == 5 {
        120
    } else if month == 6 {
        151
    } else if month == 7 {
        181
    } else if month == 8 {
        212
    } else if month == 9 {
        243
    } else if month == 10 {
        273
    } else if month == 11 {
        304
    } else {
        334
    };
    days += before;
    if month > 2 && is_leap(year) {
        days += 1;
    }
    days += day as u128 - 1;
    assert(days <= 366 * 8100);
    let mut result: u128 = days;
    result *= 24;
    result += hour as u128;
    result *= 60;
    result += minute as u128;
    result *= 60;
    result += second as u128;
    result *= 1_000_000_000;
    result += nanosecond as u128;
    result
}

/// A timer: ready once the clock reaches its deadline.
pub struct SleepFuture {
    end_ts: u128,
}

impl SleepFuture {
    pub closed spec fn deadline(&self) -> u128 {
        self.end_ts
    }

    /// A timer that fires `delay` nanoseconds after `now`.
    pub fn new(now: u128, delay: u64) -> (r: SleepFuture)
        requires
            now + delay <= u128::MAX,
        ensures
            r.deadline() == now + delay,
    {
        SleepFuture { end_ts: now + delay as u128 }
    }

    /// Whether the timer has fired at clock reading `now`.
    pub fn is_ready(&self, now: u128) -> (r: bool)
        ensures
            r == (now >= self.deadline()),
    {
        now >= self.end_ts
    }
}

} // verus!
