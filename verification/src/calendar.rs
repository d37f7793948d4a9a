//! The proleptic Gregorian calendar, counted in days from 1970-01-01.
use vstd::prelude::*;
use vstd::arithmetic::div_mod::lemma_fundamental_div_mod_converse;

verus! {

pub open spec fn is_leap_year(y: int) -> bool {
    y % 4 == 0 && (y % 100 != 0 || y % 400 == 0)
}

pub open spec fn year_length(y: int) -> int {
    if is_leap_year(y) {
        366
    } else {
        365
    }
}

pub open spec fn days_in_month(y: int, m: int) -> int {
    if m == 2 {
        if is_leap_year(y) {
            29
        } else {
            28
        }
    } else if m == 4 || m == 6 || m == 9 || m == 11 {
        30
    } else {
        31
    }
}

/// Days from 1970-01-01 to the first of January of year `y`.
pub open spec fn days_before_year(y: int) -> int
    decreases y - 1970,
{
    if y <= 1970 {
        0
    } else {
        days_before_year(y - 1) + year_length(y - 1)
    }
}

/// Days from the first of January to the first day of month `m` of year `y`.
pub open spec fn days_before_month(y: int, m: int) -> int
    decreases m,
{
    if m <= 1 {
        0
    } else {
        days_before_month(y, m - 1) + days_in_month(y, m - 1)
    }
}

/// A calendar date on or after 1970-01-01.
pub open spec fn is_valid_date(y: int, m: int, d: int) -> bool {
    y >= 1970 && 1 <= m <= 12 && 1 <= d <= days_in_month(y, m)
}

/// Days from 1970-01-01 to the given date.
pub open spec fn days_since_epoch(y: int, m: int, d: int) -> int {
    days_before_year(y) + days_before_month(y, m) + d - 1
}

/// The date that lies `days` days after 1970-01-01 (`days >= 0`); it exists
/// and is unique, see `lemma_civil_date`.
pub open spec fn civil_date(days: int) -> (int, int, int) {
    choose|y: int, m: int, d: int| is_valid_date(y, m, d) && days_since_epoch(y, m, d) == days
}

/// Leap years among the years 1 through `x`.
pub open spec fn leap_years_through(x: int) -> int {
    x / 4 - x / 100 + x / 400
}

proof fn lemma_leap_count_step(x: int)
    requires
        x >= 1,
    ensures
        leap_years_through(x) == leap_years_through(x - 1) + (if is_leap_year(x) {
            1int
        } else {
            0int
        }),
{
    lemma_fundamental_div_mod_converse(x, 4, (x - 1) / 4 + (if x % 4 == 0 { 1int } else { 0 }), x % 4);
    lemma_fundamental_div_mod_converse(x, 100, (x - 1) / 100 + (if x % 100 == 0 { 1int } else { 0 }), x % 100);
    lemma_fundamental_div_mod_converse(x, 400, (x - 1) / 400 + (if x % 400 == 0 { 1int } else { 0 }), x % 400);
}

/// Closed form of `days_before_year`.
pub proof fn lemma_days_before_year(y: int)
    requires
        y >= 1970,
    ensures
        days_before_year(y) == 365 * (y - 1970) + leap_years_through(y - 1) - 477,
    decreases y - 1970,
{
    if y > 1970 {
        lemma_days_before_year(y - 1);
        lemma_leap_count_step(y - 1);
    }
}

/// Days from the first of January to the first of month `m` in a common year.
pub open spec fn common_month_offset(m: int) -> int {
    if m <= 1 { 0 }
    else if m == 2 { 31 }
    else if m == 3 { 59 }
    else if m == 4 { 90 }
    else if m == 5 { 120 }
    else if m == 6 { 151 }
    else if m == 7 { 181 }
    else if m == 8 { 212 }
    else if m == 9 { 243 }
    else if m == 10 { 273 }
    else if m == 11 { 304 }
    else if m == 12 { 334 }
    else { 365 }
}

pub proof fn lemma_days_before_month(y: int, m: int)
    requires
        1 <= m <= 13,
    ensures
        days_before_month(y, m) == common_month_offset(m) + (if m > 2 && is_leap_year(y) {
            1int
        } else {
            0int
        }),
{
    reveal_with_fuel(days_before_month, 13);
}

proof fn lemma_day_of_year_bounds(y: int, m: int, d: int)
    requires
        is_valid_date(y, m, d),
    ensures
        0 <= days_before_month(y, m) + d - 1 < year_length(y),
        days_before_month(y, m) + d - 1 < days_before_month(y, m + 1),
{
    lemma_days_before_month(y, m);
    lemma_days_before_month(y, m + 1);
    lemma_days_before_month(y, 13);
}

proof fn lemma_days_before_year_monotone(a: int, b: int)
    requires
        1970 <= a <= b,
    ensures
        days_before_year(a) <= days_before_year(b),
    decreases b - a,
{
    if a < b {
        lemma_days_before_year_monotone(a, b - 1);
    }
}

/// Distinct valid dates lie on distinct days.
pub proof fn lemma_days_since_epoch_injective(y1: int, m1: int, d1: int, y2: int, m2: int, d2: int)
    requires
        is_valid_date(y1, m1, d1),
        is_valid_date(y2, m2, d2),
        days_since_epoch(y1, m1, d1) == days_since_epoch(y2, m2, d2),
    ensures
        y1 == y2 && m1 == m2 && d1 == d2,
{
    lemma_day_of_year_bounds(y1, m1, d1);
    lemma_day_of_year_bounds(y2, m2, d2);
    if y1 < y2 {
        lemma_days_before_year_monotone(y1 + 1, y2);
        assert(days_before_year(y1 + 1) == days_before_year(y1) + year_length(y1));
    } else if y2 < y1 {
        lemma_days_before_year_monotone(y2 + 1, y1);
        assert(days_before_year(y2 + 1) == days_before_year(y2) + year_length(y2));
    } else {
        lemma_days_before_month(y1, m1);
        lemma_days_before_month(y1, m2);
        lemma_days_before_month(y1, m1 + 1);
        lemma_days_before_month(y1, m2 + 1);
    }
}

/// Later days have later dates: the order of day counts is the order of
/// (year, month, day).
pub proof fn lemma_days_since_epoch_order(y1: int, m1: int, d1: int, y2: int, m2: int, d2: int)
    requires
        is_valid_date(y1, m1, d1),
        is_valid_date(y2, m2, d2),
        days_since_epoch(y1, m1, d1) < days_since_epoch(y2, m2, d2),
    ensures
        y1 < y2 || (y1 == y2 && (m1 < m2 || (m1 == m2 && d1 < d2))),
{
    lemma_day_of_year_bounds(y1, m1, d1);
    lemma_day_of_year_bounds(y2, m2, d2);
    if y2 < y1 {
        lemma_days_before_year_monotone(y2 + 1, y1);
        assert(days_before_year(y2 + 1) == days_before_year(y2) + year_length(y2));
    } else if y1 == y2 {
        lemma_days_before_month(y1, m1);
        lemma_days_before_month(y1, m2);
        lemma_days_before_month(y1, m1 + 1);
        lemma_days_before_month(y1, m2 + 1);
    }
}

/// Dates before 10000-01-01 lie fewer than 2932897 days after 1970-01-01.
pub proof fn lemma_before_year_10000(y: int, m: int, d: int)
    requires
        is_valid_date(y, m, d),
        days_since_epoch(y, m, d) < 2_932_897,
    ensures
        y < 10000,
{
    lemma_days_before_year(10000);
    lemma_day_of_year_bounds(y, m, d);
    if y >= 10000 {
        lemma_days_before_year_monotone(10000, y);
    }
}

/// First day of March-based year `t` of a 400-year era, counted from the era's
/// first March 1 (`0 <= t <= 400`).
pub open spec fn era_year_start(t: int) -> int {
    365 * t + leap_years_through(t)
}

/// Length of March-based year `t`: it ends with February of calendar year `t + 1`.
pub open spec fn era_year_length(t: int) -> int {
    year_length(t + 1)
}

proof fn lemma_era_year_step(t: int)
    requires
        0 <= t,
    ensures
        era_year_start(t + 1) == era_year_start(t) + era_year_length(t),
{
    lemma_leap_count_step(t + 1);
}

proof fn lemma_era_year_start_monotone(a: int, b: int)
    requires
        0 <= a <= b,
    ensures
        era_year_start(a) <= era_year_start(b),
    decreases b - a,
{
    if a < b {
        lemma_era_year_start_monotone(a, b - 1);
        lemma_era_year_step(b - 1);
    }
}

/// The year-of-era estimate `(doe - doe/1460 + doe/36524 - doe/146096) / 365`
/// recovers the March-based year that contains day `doe` of the era.
proof fn lemma_year_of_era(t: int, r: int)
    requires
        0 <= t <= 399,
        0 <= r < era_year_length(t),
    ensures
        ({
            let doe = era_year_start(t) + r;
            (doe - doe / 1460 + doe / 36524 - doe / 146096) / 365 == t
        }),
{
    let c = t / 100;
    let q = (t % 100) / 4;
    let s = t % 4;
    lemma_fundamental_div_mod_converse(t % 100, 4, q, t % 4);
    assert(t == 100 * c + 4 * q + s);
    lemma_fundamental_div_mod_converse(t, 4, 25 * c + q, s);
    lemma_fundamental_div_mod_converse(t, 400, 0, t);
    assert(era_year_start(t) == 36524 * c + 1461 * q + 365 * s);
    lemma_fundamental_div_mod_converse(t + 1, 4, 25 * c + q + (if s == 3 { 1int } else { 0 }), (t + 1) % 4);
    assert(r == 365 ==> s == 3);
    assert(r == 365 && q == 24 ==> c == 3) by {
        if r == 365 && q == 24 && c != 3 {
            lemma_fundamental_div_mod_converse(t + 1, 100, c + 1, 0);
            lemma_fundamental_div_mod_converse(t + 1, 400, 0, t + 1);
        }
    }
    let doe = era_year_start(t) + r;
    let d1: int = if s == 3 && r >= 365 - 24 * c - q { 1 } else { 0 };
    lemma_fundamental_div_mod_converse(doe, 1460, 25 * c + q + d1, doe - 1460 * (25 * c + q + d1));
    let d2: int = if q == 24 && s == 3 && r == 365 { 1 } else { 0 };
    lemma_fundamental_div_mod_converse(doe, 36524, c + d2, doe - 36524 * (c + d2));
    lemma_fundamental_div_mod_converse(doe, 146096, d2, doe - 146096 * d2);
    let n = doe - doe / 1460 + doe / 36524 - doe / 146096;
    assert(n == 365 * t + r - d1);
    lemma_fundamental_div_mod_converse(n, 365, t, r - d1);
}

/// Every day of an era lies in exactly one of its March-based years.
proof fn lemma_find_era_year(doe: int, t: int) -> (y: int)
    requires
        0 <= t <= 399,
        era_year_start(t) <= doe <= 146096,
    ensures
        t <= y <= 399,
        era_year_start(y) <= doe < era_year_start(y) + era_year_length(y),
    decreases 400 - t,
{
    lemma_era_year_step(t);
    if doe < era_year_start(t) + era_year_length(t) {
        t
    } else {
        lemma_find_era_year(doe, t + 1)
    }
}

/// First day of month index `k` (0 = March, ..., 11 = February) of a March-based year.
pub open spec fn march_month_start(k: int) -> int {
    (153 * k + 2) / 5
}

proof fn lemma_march_month(doy: int, leap: int)
    requires
        0 <= leap <= 1,
        0 <= doy < 365 + leap,
    ensures
        ({
            let k = (5 * doy + 2) / 153;
            &&& 0 <= k <= 11
            &&& march_month_start(k) <= doy < march_month_start(k + 1)
            &&& k < 10 ==> march_month_start(k) + 59 == common_month_offset(k + 3)
                && march_month_start(k + 1) - march_month_start(k) == days_in_month(0, k + 3)
            &&& k == 10 ==> march_month_start(k) == 306 && march_month_start(k + 1) == 337
            &&& k == 11 ==> march_month_start(k) == 337
        }),
{
    let k = (5 * doy + 2) / 153;
    lemma_fundamental_div_mod_converse(5 * doy + 2, 153, k, (5 * doy + 2) % 153);
    assert(0 <= k <= 11);
    lemma_fundamental_div_mod_converse(153 * k + 2, 5, march_month_start(k), (153 * k + 2) % 5);
    lemma_fundamental_div_mod_converse(153 * (k + 1) + 2, 5, march_month_start(k + 1), (153 * (k + 1) + 2) % 5);
    if k == 0 { assert(march_month_start(0) == 0 && march_month_start(1) == 31); }
    else if k == 1 { assert(march_month_start(1) == 31 && march_month_start(2) == 61); }
    else if k == 2 { assert(march_month_start(2) == 61 && march_month_start(3) == 92); }
    else if k == 3 { assert(march_month_start(3) == 92 && march_month_start(4) == 122); }
    else if k == 4 { assert(march_month_start(4) == 122 && march_month_start(5) == 153); }
    else if k == 5 { assert(march_month_start(5) == 153 && march_month_start(6) == 184); }
    else if k == 6 { assert(march_month_start(6) == 184 && march_month_start(7) == 214); }
    else if k == 7 { assert(march_month_start(7) == 214 && march_month_start(8) == 245); }
    else if k == 8 { assert(march_month_start(8) == 245 && march_month_start(9) == 275); }
    else if k == 9 { assert(march_month_start(9) == 275 && march_month_start(10) == 306); }
    else if k == 10 { assert(march_month_start(10) == 306 && march_month_start(11) == 337); }
    else { assert(march_month_start(11) == 337 && march_month_start(12) == 367); }
}

/// Era arithmetic for the date `z` days after 0000-03-01: 400-year eras of
/// 146097 days, March-based years inside an era, months from March.
pub open spec fn civil_from_march_days(z: int) -> (int, int, int) {
    let era = z / 146097;
    let doe = z - era * 146097;
    let yoe = (doe - doe / 1460 + doe / 36524 - doe / 146096) / 365;
    let doy = doe - (365 * yoe + yoe / 4 - yoe / 100);
    let mp = (5 * doy + 2) / 153;
    let day = doy - march_month_start(mp) + 1;
    let month = if mp < 10 {
        mp + 3
    } else {
        mp - 9
    };
    let year = yoe + era * 400 + (if month <= 2 {
        1int
    } else {
        0int
    });
    (year, month, day)
}

/// Shifting a year by whole 400-year eras keeps its leap status and its count of leap years.
proof fn lemma_era_shift(e: int, x: int)
    requires
        e >= 0,
        x >= 0,
    ensures
        is_leap_year(400 * e + x) == is_leap_year(x),
        leap_years_through(400 * e + x) == 97 * e + leap_years_through(x),
{
    lemma_fundamental_div_mod_converse(400 * e + x, 4, 100 * e + x / 4, x % 4);
    lemma_fundamental_div_mod_converse(400 * e + x, 100, 4 * e + x / 100, x % 100);
    lemma_fundamental_div_mod_converse(400 * e + x, 400, e + x / 400, x % 400);
}

/// The era arithmetic finds the calendar date of every day since 1970-01-01
/// (0000-03-01 lies 719468 days before 1970-01-01).
pub proof fn lemma_civil_from_march_days(z: int)
    requires
        z >= 719468,
    ensures
        ({
            let (y, m, d) = civil_from_march_days(z);
            &&& is_valid_date(y, m, d)
            &&& days_since_epoch(y, m, d) == z - 719468
            &&& civil_date(z - 719468) == (y, m, d)
        }),
{
    let era = z / 146097;
    let doe = z - era * 146097;
    lemma_fundamental_div_mod_converse(z, 146097, era, z % 146097);
    assert(era >= 4);
    let t = lemma_find_era_year(doe, 0);
    let r = doe - era_year_start(t);
    lemma_year_of_era(t, r);
    let yoe = (doe - doe / 1460 + doe / 36524 - doe / 146096) / 365;
    assert(yoe == t);
    lemma_fundamental_div_mod_converse(t, 400, 0, t);
    let doy = doe - (365 * yoe + yoe / 4 - yoe / 100);
    assert(doy == r);
    let leap: int = era_year_length(t) - 365;
    lemma_march_month(doy, leap);
    let mp = (5 * doy + 2) / 153;
    let big_y = yoe + era * 400;
    lemma_era_shift(era, t);
    lemma_era_shift(era, t + 1);
    assert(365 * big_y + leap_years_through(big_y) == 146097 * era + era_year_start(t));
    // The date is not before 1970-01-01.
    assert(big_y >= 1969) by {
        if big_y < 1969 {
            assert(era == 4);
            lemma_era_year_step(t);
            lemma_era_year_start_monotone(t + 1, 369);
        }
    }
    assert(big_y == 1969 ==> mp >= 10) by {
        if big_y == 1969 {
            assert(t == 369);
        }
    }
    let (y, m, d) = civil_from_march_days(z);
    if mp < 10 {
        assert(y == big_y && m == mp + 3);
        lemma_days_before_year(big_y);
        lemma_leap_count_step(big_y);
        lemma_days_before_month(big_y, m);
    } else {
        assert(y == big_y + 1 && m == mp - 9);
        lemma_days_before_year(big_y + 1);
        lemma_days_before_month(big_y + 1, m);
    }
    assert(is_valid_date(y, m, d));
    assert(days_since_epoch(y, m, d) == z - 719468);
    let c = civil_date(z - 719468);
    lemma_days_since_epoch_injective(c.0, c.1, c.2, y, m, d);
}

} // verus!
