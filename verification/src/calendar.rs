//! The proleptic Gregorian calendar: day numbers since 1970-01-01 and civil dates.

use vstd::prelude::*;
use vstd::arithmetic::div_mod::{lemma_div_multiples_vanish_fancy, lemma_mod_multiples_vanish};

verus! {

pub open spec fn is_leap_year(y: int) -> bool {
    y % 4 == 0 && (y % 100 != 0 || y % 400 == 0)
}

pub open spec fn year_length(y: int) -> int {
    if is_leap_year(y) {
        366
    } else {
        365
    }
}

pub open spec fn days_in_month(y: int, m: int) -> int {
    if m == 2 {
        if is_leap_year(y) {
            29
        } else {
            28
        }
    } else if m == 4 || m == 6 || m == 9 || m == 11 {
        30
    } else {
        31
    }
}

pub open spec fn is_valid_date(y: int, m: int, d: int) -> bool {
    1 <= m <= 12 && 1 <= d <= days_in_month(y, m)
}

/// Days from 0001-01-01 to the first day of year `y`.
pub open spec fn days_before_year(y: int) -> int {
    let n = y - 1;
    365 * n + n / 4 - n / 100 + n / 400
}

/// Days from the first day of year `y` to the first day of month `m`.
pub open spec fn days_before_month(y: int, m: int) -> int {
    (if m <= 1 {
        0int
    } else if m == 2 {
        31
    } else if m == 3 {
        59
    } else if m == 4 {
        90
    } else if m == 5 {
        120
    } else if m == 6 {
        151
    } else if m == 7 {
        181
    } else if m == 8 {
        212
    } else if m == 9 {
        243
    } else if m == 10 {
        273
    } else if m == 11 {
        304
    } else {
        334
    }) + (if m > 2 && is_leap_year(y) {
        1int
    } else {
        0int
    })
}

/// The number of the day `y-m-d`, counted from 1970-01-01 (day 0).
pub open spec fn epoch_day(y: int, m: int, d: int) -> int {
    days_before_year(y) + days_before_month(y, m) + d - 1 - days_before_year(1970)
}

/// The civil date of day number `days` (counted from 1970-01-01).
pub open spec fn civil_date(days: int) -> (int, int, int) {
    choose|date: (int, int, int)|
        is_valid_date(date.0, date.1, date.2) && epoch_day(date.0, date.1, date.2) == days
}

/// The year grows by its own length.
pub proof fn lemma_next_year(y: int)
    ensures
        days_before_year(y + 1) == days_before_year(y) + year_length(y),
{
    let n = y - 1;
    assert(n == 4 * (n / 4) + n % 4);
    assert(y == 4 * (y / 4) + y % 4);
    assert(n == 100 * (n / 100) + n % 100);
    assert(y == 100 * (y / 100) + y % 100);
    assert(n == 400 * (n / 400) + n % 400);
    assert(y == 400 * (y / 400) + y % 400);
}

/// Earlier years start earlier.
pub proof fn lemma_years_ordered(a: int, b: int)
    requires
        a <= b,
    ensures
        days_before_year(a) <= days_before_year(b),
        a < b ==> days_before_year(a + 1) <= days_before_year(b),
    decreases b - a,
{
    if a < b {
        lemma_years_ordered(a, b - 1);
        lemma_next_year(b - 1);
        lemma_next_year(a);
    }
}

/// Within a valid date's year, its offset lies inside the year.
pub proof fn lemma_offset_in_year(y: int, m: int, d: int)
    requires
        is_valid_date(y, m, d),
    ensures
        0 <= days_before_month(y, m) + d - 1 < year_length(y),
{
}

/// Two valid dates with the same day number are the same date.
pub proof fn lemma_epoch_day_injective(y1: int, m1: int, d1: int, y2: int, m2: int, d2: int)
    requires
        is_valid_date(y1, m1, d1),
        is_valid_date(y2, m2, d2),
        epoch_day(y1, m1, d1) == epoch_day(y2, m2, d2),
    ensures
        y1 == y2 && m1 == m2 && d1 == d2,
{
    lemma_offset_in_year(y1, m1, d1);
    lemma_offset_in_year(y2, m2, d2);
    if y1 < y2 {
        lemma_years_ordered(y1, y2);
        lemma_next_year(y1);
    } else if y2 < y1 {
        lemma_years_ordered(y2, y1);
        lemma_next_year(y2);
    }
    assert(y1 == y2);
    if m1 < m2 {
        assert(days_before_month(y1, m1) + days_in_month(y1, m1) <= days_before_month(y1, m2));
    } else if m2 < m1 {
        assert(days_before_month(y1, m2) + days_in_month(y1, m2) <= days_before_month(y1, m1));
    }
}

/// Facts of one 400-year era, checked over all its days.
pub proof fn lemma_era_day(doe: u32)
    by (bit_vector)
    requires
        doe < 146097,
    ensures
        ({
            let y = (doe - doe / 1460 + doe / 36524 - doe / 146096) / 365;
            let doy = doe - (365 * y + y / 4 - y / 100);
            &&& y < 400
            &&& 0 <= doy
            &&& (doy <= 364 || (doy == 365 && (y + 1) % 4 == 0 && ((y + 1) % 100 != 0 || (y
                + 1) % 400 == 0)))
        }),
{
}

/// Month and day of a day-of-year counted from March 1st.
pub proof fn lemma_march_year_day(doy: u32)
    by (bit_vector)
    requires
        doy <= 365,
    ensures
        ({
            let mp = (5 * doy + 2) / 153;
            let d = doy - (153 * mp + 2) / 5 + 1;
            &&& mp <= 11
            &&& 1 <= d
            &&& (mp == 0 ==> d <= 31)
            &&& (mp == 1 ==> d <= 30)
            &&& (mp == 2 ==> d <= 31)
            &&& (mp == 3 ==> d <= 30)
            &&& (mp == 4 ==> d <= 31)
            &&& (mp == 5 ==> d <= 31)
            &&& (mp == 6 ==> d <= 30)
            &&& (mp == 7 ==> d <= 31)
            &&& (mp == 8 ==> d <= 30)
            &&& (mp == 9 ==> d <= 31)
            &&& (mp == 10 ==> d <= 31)
            &&& (mp == 11 ==> (d <= 28 || (d == 29 && doy == 365)))
        }),
{
}

/// Days before the year following year `yoe` of era `era`.
pub proof fn lemma_era_year_start(era: int, yoe: int)
    requires
        0 <= yoe < 400,
    ensures
        days_before_year(400 * era + yoe + 1) == 146097 * era + 365 * yoe + yoe / 4 - yoe / 100,
        is_leap_year(400 * era + yoe) == is_leap_year(yoe),
        is_leap_year(400 * era + yoe + 1) == is_leap_year(yoe + 1),
{
    let n = 400 * era + yoe;
    lemma_div_multiples_vanish_fancy(100 * era + yoe / 4, yoe % 4, 4);
    assert(n == 4 * (100 * era + yoe / 4) + yoe % 4);
    lemma_div_multiples_vanish_fancy(4 * era + yoe / 100, yoe % 100, 100);
    assert(n == 100 * (4 * era + yoe / 100) + yoe % 100);
    lemma_div_multiples_vanish_fancy(era, yoe, 400);
    lemma_mod_multiples_vanish(100 * era, yoe, 4);
    lemma_mod_multiples_vanish(4 * era, yoe, 100);
    lemma_mod_multiples_vanish(era, yoe, 400);
    lemma_mod_multiples_vanish(100 * era, yoe + 1, 4);
    lemma_mod_multiples_vanish(4 * era, yoe + 1, 100);
    lemma_mod_multiples_vanish(era, yoe + 1, 400);
}

/// The March-based civil computation of one day lands on a valid date with that day number.
pub proof fn lemma_civil_result(
    z: int,
    era: int,
    doe: int,
    yoe: int,
    doy: int,
    mp: int,
    day: int,
    month: int,
    year: int,
)
    requires
        z == 146097 * era + doe,
        0 <= doe < 146097,
        yoe == (doe - doe / 1460 + doe / 36524 - doe / 146096) / 365,
        doy == doe - (365 * yoe + yoe / 4 - yoe / 100),
        mp == (5 * doy + 2) / 153,
        day == doy - (153 * mp + 2) / 5 + 1,
        month == (if mp < 10 {
            mp + 3
        } else {
            mp - 9
        }),
        year == yoe + 400 * era + (if month <= 2 {
            1int
        } else {
            0int
        }),
    ensures
        is_valid_date(year, month, day),
        epoch_day(year, month, day) == z - 719468,
{
    lemma_era_day(doe as u32);
    lemma_march_year_day(doy as u32);
    lemma_era_year_start(era, yoe);
    lemma_next_year(400 * era + yoe);
}

} // verus!
