//! The calendar, in UTC.
use vstd::prelude::*;

verus! {

/// The seconds of a day.
pub const DAY_S: i64 = 86400;

/// The days from 1 January of the year 1 to 1 January 1970.
pub const EPOCH_DAY: i64 = 719162;

/// Whether a year has a 29 February.
pub open spec fn is_leap(y: int) -> bool {
    y % 4 == 0 && (y % 100 != 0 || y % 400 == 0)
}

/// How many days a year has.
pub open spec fn year_days(y: int) -> int {
    if is_leap(y) {
        366
    } else {
        365
    }
}

/// How many days the month `m` of a year has, 1 being January.
pub open spec fn month_days(y: int, m: int) -> int {
    if m == 2 {
        if is_leap(y) {
            29
        } else {
            28
        }
    } else if m == 4 || m == 6 || m == 9 || m == 11 {
        30
    } else {
        31
    }
}

/// The days from 1 January of the year 1 to 1 January of the year `y`.
pub open spec fn days_to_year(y: int) -> int {
    365 * (y - 1) + (y - 1) / 4 - (y - 1) / 100 + (y - 1) / 400
}

/// The days of a year before its month `m`.
pub open spec fn days_to_month(y: int, m: int) -> int
    decreases m,
{
    if m <= 1 {
        0
    } else {
        days_to_month(y, m - 1) + month_days(y, m - 1)
    }
}

/// The day on which a month starts, the first day of the year 1 being day 0.
pub open spec fn first_day(y: int, m: int) -> int {
    days_to_year(y) + days_to_month(y, m)
}

/// The second at which a month starts, counted from the start of 1970.
pub open spec fn first_second(y: int, m: int) -> int {
    (first_day(y, m) - EPOCH_DAY) * DAY_S
}

/// Whether a month starts at this second.
pub open spec fn is_month_start(t: int) -> bool {
    exists|y: int, m: int| 1 <= m <= 12 && t == #[trigger] first_second(y, m)
}

/// A year is followed by the next one after its days.
pub proof fn years_follow(y: int)
    ensures
        days_to_year(y + 1) == days_to_year(y) + year_days(y),
{
}

/// The months of a year are the whole of it.
pub proof fn months_fill_the_year(y: int)
    ensures
        days_to_month(y, 13) == year_days(y),
{
    reveal_with_fuel(days_to_month, 13);
}

proof fn later_month(y: int, a: int, b: int)
    requires
        1 <= a < b <= 13,
    ensures
        days_to_month(y, a) + month_days(y, a) <= days_to_month(y, b),
    decreases b,
{
    if a < b - 1 {
        later_month(y, a, b - 1);
    }
}

proof fn later_year(a: int, b: int)
    requires
        a < b,
    ensures
        days_to_year(a) + year_days(a) <= days_to_year(b),
    decreases b - a,
{
    years_follow(a);
    if a < b - 1 {
        later_year(a + 1, b);
    }
}

/// No month starts within another.
proof fn months_do_not_overlap(y: int, m: int, y2: int, m2: int, day: int)
    requires
        1 <= m <= 12,
        1 <= m2 <= 12,
        first_day(y, m) <= day < first_day(y, m) + month_days(y, m),
    ensures
        !(first_day(y, m) < first_day(y2, m2) <= day),
{
    months_fill_the_year(y);
    months_fill_the_year(y2);
    later_month(y, m, 13);
    later_month(y2, m2, 13);
    if m > 1 {
        later_month(y, 1, m);
    }
    if m2 > 1 {
        later_month(y2, 1, m2);
    }
    if y2 < y {
        later_year(y2, y);
    } else if y < y2 {
        later_year(y, y2);
    } else if m2 < m {
        later_month(y, m2, m);
    } else if m < m2 {
        later_month(y, m, m2);
    }
}

/// The days of the first `k` years of a cycle of 400.
fn days_of_years(k: i64) -> (r: i64)
    requires
        0 <= k <= 400,
    ensures
        r == days_to_year(k + 1),
{
    365 * k + k / 4 - k / 100 + k / 400
}

fn days_of_month(leap: bool, m: i64) -> (r: i64)
    ensures
        forall|y: int| #[trigger] is_leap(y) == leap ==> r == month_days(y, m as int),
{
    if m == 2 {
        if leap {
            29
        } else {
            28
        }
    } else if m == 4 || m == 6 || m == 9 || m == 11 {
        30
    } else {
        31
    }
}

/// The start of the month in which `now` is, both in seconds.
pub fn month_start(now: i64) -> (r: i64)
    requires
        0 <= now,
    ensures
        is_month_start(r as int),
        r <= now,
        forall|t: int| r < t <= now ==> !#[trigger] is_month_start(t),
{
    let day: i64 = now / DAY_S + EPOCH_DAY;
    let cycle: i64 = day / 146097;
    let in_cycle: i64 = day % 146097;
    let mut k: i64 = 0;
    while days_of_years(k + 1) <= in_cycle
        invariant
            0 <= k < 400,
            in_cycle < 146097,
            days_to_year(k + 1) <= in_cycle,
        ensures
            0 <= k < 400,
            days_to_year(k + 1) <= in_cycle < days_to_year(k + 2),
        decreases 400 - k,
    {
        k = k + 1;
    }
    let ghost y = 400 * cycle + k + 1;
    let year: i64 = k + 1;
    let leap = year % 4 == 0 && (year % 100 != 0 || year % 400 == 0);
    let in_year: i64 = in_cycle - days_of_years(k);
    proof {
        assert(is_leap(y) == leap);
        assert(days_to_year(y) == 146097 * cycle + days_to_year(k + 1));
        years_follow(k as int + 1);
        assert(is_leap(k as int + 1) == leap);
        months_fill_the_year(y);
    }
    let mut m: i64 = 1;
    let mut before: i64 = 0;
    while before + days_of_month(leap, m) <= in_year
        invariant
            1 <= m <= 12,
            is_leap(y) == leap,
            before == days_to_month(y, m as int),
            0 <= before <= in_year,
            in_year < year_days(y),
            days_to_month(y, 13) == year_days(y),
        ensures
            1 <= m <= 12,
            before == days_to_month(y, m as int),
            before <= in_year < before + month_days(y, m as int),
        decreases 13 - m,
    {
        before = before + days_of_month(leap, m);
        m = m + 1;
        assert(m <= 12);
    }
    let start: i64 = day - (in_year - before);
    let r: i64 = (start - EPOCH_DAY) * DAY_S;
    proof {
        assert(start == first_day(y, m as int));
        assert(r == first_second(y, m as int));
        assert forall|t: int| r < t <= now implies !#[trigger] is_month_start(t) by {
            if is_month_start(t) {
                let (y2, m2) = choose|y2: int, m2: int|
                    1 <= m2 <= 12 && t == #[trigger] first_second(y2, m2);
                months_do_not_overlap(y, m as int, y2, m2, day as int);
            }
        }
    }
    r
}

} // verus!
