use vstd::prelude::*;
use crate::error::ExplorerError;
use vstd::arithmetic::div_mod::{
    lemma_fundamental_div_mod, lemma_fundamental_div_mod_converse,
    lemma_mod_division_less_than_divisor, lemma_mod_multiples_vanish,
    lemma_div_multiples_vanish, lemma_hoist_over_denominator, lemma_multiply_divide_lt,
    lemma_div_is_ordered,
};

verus! {

/// A calendar date in the proleptic Gregorian calendar, counted against the
/// epoch 1970-01-01. Day numbers are signed days since that epoch.
#[derive(Clone, Copy, Debug, PartialEq, Eq)]
pub struct ExDate {
    pub day: u32,
    pub month: u32,
    pub year: i32,
}

/// Whether `y` is a leap year in the proleptic Gregorian calendar.
pub open spec fn is_leap_year(y: int) -> bool {
    (y % 4 == 0 && y % 100 != 0) || y % 400 == 0
}

/// Number of days in month `m` (1..=12) of year `y`.
pub open spec fn days_in_month(y: int, m: int) -> int {
    if m == 2 {
        if is_leap_year(y) { 29 } else { 28 }
    } else if m == 4 || m == 6 || m == 9 || m == 11 {
        30
    } else {
        31
    }
}

/// A structurally valid calendar date.
pub open spec fn valid_ymd(y: int, m: int, d: int) -> bool {
    1 <= m <= 12 && 1 <= d <= days_in_month(y, m)
}

/// Month index in the March-based year: March is 0, ..., February is 11.
pub open spec fn march_month_index(m: int) -> int {
    if m >= 3 { m - 3 } else { m + 9 }
}

/// First day-of-year (March-based) of the month with March-based index `mp`.
pub open spec fn march_month_offset(mp: int) -> int {
    if mp == 0 { 0 }
    else if mp == 1 { 31 }
    else if mp == 2 { 61 }
    else if mp == 3 { 92 }
    else if mp == 4 { 122 }
    else if mp == 5 { 153 }
    else if mp == 6 { 184 }
    else if mp == 7 { 214 }
    else if mp == 8 { 245 }
    else if mp == 9 { 275 }
    else if mp == 10 { 306 }
    else { 337 }
}

/// March-based month index of a March-based day of year `doy` (0..=365).
pub open spec fn march_month_of_doy(doy: int) -> int {
    if doy < 31 { 0 }
    else if doy < 61 { 1 }
    else if doy < 92 { 2 }
    else if doy < 122 { 3 }
    else if doy < 153 { 4 }
    else if doy < 184 { 5 }
    else if doy < 214 { 6 }
    else if doy < 245 { 7 }
    else if doy < 275 { 8 }
    else if doy < 306 { 9 }
    else if doy < 337 { 10 }
    else { 11 }
}

/// First day-of-era (0..=146096) of year-of-era `yoe` (0..=399), where an era
/// is a 400-year Gregorian cycle starting on a March 1.
pub open spec fn start_of_yoe(yoe: int) -> int {
    365 * yoe + yoe / 4 - yoe / 100
}

/// Signed day count since 1970-01-01 of the date `(y, m, d)`.
pub open spec fn days_from_civil(y: int, m: int, d: int) -> int {
    let y2 = if m <= 2 { y - 1 } else { y };
    let era = y2 / 400;
    let yoe = y2 % 400;
    era * 146097 + start_of_yoe(yoe) + march_month_offset(march_month_index(m)) + d - 1
        - 719468
}

/// Year-of-era containing day-of-era `doe`, searching upward from `y`.
pub open spec fn yoe_of_doe_from(doe: int, y: int) -> int
    decreases 399 - y,
{
    if y >= 399 {
        399
    } else if doe < start_of_yoe(y + 1) {
        y
    } else {
        yoe_of_doe_from(doe, y + 1)
    }
}

/// The date `(y, m, d)` whose signed day count since 1970-01-01 is `z`.
pub open spec fn civil_from_days(z: int) -> (int, int, int) {
    let z0 = z + 719468;
    let era = z0 / 146097;
    let doe = z0 % 146097;
    let yoe = yoe_of_doe_from(doe, 0);
    let doy = doe - start_of_yoe(yoe);
    let mp = march_month_of_doy(doy);
    let d = doy - march_month_offset(mp) + 1;
    let m = if mp < 10 { mp + 3 } else { mp - 9 };
    let y = era * 400 + yoe + (if m <= 2 { 1int } else { 0 });
    (y, m, d)
}

/// `civil_from_days` packed into the exported date shape.
pub open spec fn date_of_days(z: int) -> ExDate {
    ExDate {
        day: civil_from_days(z).2 as u32,
        month: civil_from_days(z).1 as u32,
        year: civil_from_days(z).0 as i32,
    }
}

/// Dividing `x + 1` by positive `d` steps the quotient exactly when `d`
/// divides `x + 1`.
proof fn lemma_div_step(x: int, d: int)
    requires
        d > 0,
    ensures
        x % d == d - 1 ==> (x + 1) / d == x / d + 1 && (x + 1) % d == 0,
        x % d < d - 1 ==> (x + 1) / d == x / d && (x + 1) % d == x % d + 1,
{
    lemma_fundamental_div_mod(x, d);
    let q = x / d;
    let r = x % d;
    lemma_mod_division_less_than_divisor(x, d);
    if r == d - 1 {
        assert(x + 1 == (q + 1) * d + 0) by {
            assert(x == d * q + r);
            assert((q + 1) * d == q * d + d) by (nonlinear_arith);
            assert(d * q == q * d) by (nonlinear_arith);
        }
        lemma_fundamental_div_mod_converse(x + 1, d, q + 1, 0);
    } else {
        assert(x + 1 == q * d + (r + 1)) by {
            assert(x == d * q + r);
            assert(d * q == q * d) by (nonlinear_arith);
        }
        lemma_fundamental_div_mod_converse(x + 1, d, q, r + 1);
    }
}

/// Consecutive years of an era start 365 or 366 days apart, 366 exactly for
/// the years whose following calendar year is a leap year of the cycle.
proof fn lemma_start_of_yoe_step(y: int)
    requires
        0 <= y,
    ensures
        start_of_yoe(y + 1) - start_of_yoe(y) == 365 + (if (y + 1) % 4 == 0 { 1int } else { 0 })
            - (if (y + 1) % 100 == 0 { 1int } else { 0 }),
        (y + 1) % 100 == 0 ==> (y + 1) % 4 == 0,
{
    lemma_div_step(y, 4);
    lemma_div_step(y, 100);
    lemma_mod_division_less_than_divisor(y, 4);
    lemma_mod_division_less_than_divisor(y, 100);
    if (y + 1) % 100 == 0 {
        lemma_fundamental_div_mod(y + 1, 100);
        let k = (y + 1) / 100;
        assert(y + 1 == 100 * k);
        assert(100 * k == (25 * k) * 4 + 0) by (nonlinear_arith);
        lemma_fundamental_div_mod_converse(y + 1, 4, 25 * k, 0);
    }
}

/// The searched year-of-era is the one whose span of days contains `doe`.
proof fn lemma_yoe_of_doe_from(doe: int, y: int)
    requires
        0 <= y <= 399,
        start_of_yoe(y) <= doe <= 146096,
    ensures
        ({
            let yy = yoe_of_doe_from(doe, y);
            &&& y <= yy <= 399
            &&& start_of_yoe(yy) <= doe
            &&& yy < 399 ==> doe < start_of_yoe(yy + 1)
        }),
    decreases 399 - y,
{
    if y >= 399 {
    } else if doe < start_of_yoe(y + 1) {
    } else {
        lemma_yoe_of_doe_from(doe, y + 1);
    }
}

/// Bounds for the day-of-year cut out of a day-of-era: at most 365, and 365
/// only in a year whose following cycle year is leap.
proof fn lemma_doy_of_doe(doe: int)
    requires
        0 <= doe <= 146096,
    ensures
        ({
            let yy = yoe_of_doe_from(doe, 0);
            let doy = doe - start_of_yoe(yy);
            &&& 0 <= yy <= 399
            &&& 0 <= doy <= 365
            &&& doy == 365 ==> ((yy + 1) % 4 == 0 && ((yy + 1) % 100 != 0 || yy + 1 == 400))
        }),
{
    assert(start_of_yoe(0) == 0);
    lemma_yoe_of_doe_from(doe, 0);
    let yy = yoe_of_doe_from(doe, 0);
    let doy = doe - start_of_yoe(yy);
    if yy < 399 {
        lemma_start_of_yoe_step(yy);
    } else {
        assert(start_of_yoe(399) == 145731) by {
            assert(399int / 4 == 99 && 399int % 4 == 3) by {
                lemma_fundamental_div_mod_converse(399, 4, 99, 3);
            }
            assert(399int / 100 == 3 && 399int % 100 == 99) by {
                lemma_fundamental_div_mod_converse(399, 100, 3, 99);
            }
        }
    }
}

/// Leap years of the proleptic Gregorian calendar repeat with the 400-year
/// cycle: year `era * 400 + k` is leap exactly as position `k` of the cycle.
proof fn lemma_leap_of_cycle(era: int, k: int)
    requires
        1 <= k <= 400,
    ensures
        is_leap_year(era * 400 + k) == ((k % 4 == 0 && k % 100 != 0) || k == 400),
{
    assert((era * 400 + k) % 4 == k % 4) by {
        assert(era * 400 + k == 4 * (era * 100) + k) by (nonlinear_arith);
        lemma_mod_multiples_vanish(era * 100, k, 4);
    }
    assert((era * 400 + k) % 100 == k % 100) by {
        assert(era * 400 + k == 100 * (era * 4) + k) by (nonlinear_arith);
        lemma_mod_multiples_vanish(era * 4, k, 100);
    }
    assert((era * 400 + k) % 400 == k % 400) by {
        assert(era * 400 + k == 400 * era + k) by (nonlinear_arith);
        lemma_mod_multiples_vanish(era, k, 400);
    }
    if k < 400 {
        assert(k % 400 == k) by {
            lemma_fundamental_div_mod_converse(k, 400, 0, k);
        }
    } else {
        assert(400int % 400 == 0) by {
            lemma_fundamental_div_mod_converse(400, 400, 1, 0);
        }
        assert(400int % 4 == 0) by {
            lemma_fundamental_div_mod_converse(400, 4, 100, 0);
        }
    }
}

/// Every signed day count names a valid Gregorian date, and converting that
/// date back to a day count recovers the count exactly.
pub proof fn lemma_days_round_trip(z: int)
    ensures
        valid_ymd(civil_from_days(z).0, civil_from_days(z).1, civil_from_days(z).2),
        days_from_civil(civil_from_days(z).0, civil_from_days(z).1, civil_from_days(z).2)
            == z,
{
    let z0 = z + 719468;
    let era = z0 / 146097;
    let doe = z0 % 146097;
    lemma_fundamental_div_mod(z0, 146097);
    lemma_mod_division_less_than_divisor(z0, 146097);
    let yoe = yoe_of_doe_from(doe, 0);
    let doy = doe - start_of_yoe(yoe);
    lemma_doy_of_doe(doe);
    let mp = march_month_of_doy(doy);
    let d = doy - march_month_offset(mp) + 1;
    let m = if mp < 10 { mp + 3 } else { mp - 9 };
    let y = era * 400 + yoe + (if m <= 2 { 1int } else { 0 });

    // The cut-out day falls inside its month.
    if mp == 11 {
        // February: day 29 appears only when the containing calendar year,
        // which is cycle position yoe + 1, is leap.
        lemma_leap_of_cycle(era, yoe + 1);
        assert(1 <= d <= days_in_month(y, m));
    } else if mp == 10 {
        lemma_leap_of_cycle(era, yoe + 1);
        assert(1 <= d <= days_in_month(y, m));
    } else {
        assert(1 <= d <= days_in_month(y, m));
    }
    assert(valid_ymd(y, m, d));

    // Reassembling the parts recovers the day count.
    let y2 = if m <= 2 { y - 1 } else { y };
    assert(y2 == era * 400 + yoe);
    assert(y2 / 400 == era && y2 % 400 == yoe) by {
        lemma_fundamental_div_mod_converse(y2, 400, era, yoe);
    }
    assert(march_month_index(m) == mp);
    assert(march_month_offset(mp) + d - 1 == doy);
    assert(era * 146097 + start_of_yoe(yoe) + doy - 719468 == z) by {
        assert(z0 == 146097 * era + doe);
        assert(146097 * era == era * 146097) by (nonlinear_arith);
    }
    assert(days_from_civil(y, m, d) == z);
}

/// A day count that fits the 32-bit wire encoding of dates.
pub open spec fn day_in_range(n: int) -> bool {
    -2147483648 <= n <= 2147483647
}

/// Day counts in the 32-bit range name years of moderate size.
pub proof fn lemma_civil_year_bounds(z: int)
    requires
        -2147483649 <= z <= 2147483647,
    ensures
        -6000000 < civil_from_days(z).0 < 6000000,
{
    let z0 = z + 719468;
    let era = z0 / 146097;
    let doe = z0 % 146097;
    lemma_mod_division_less_than_divisor(z0, 146097);
    assert(era >= -14695) by {
        lemma_div_multiples_vanish(-14695, 146097);
        lemma_div_is_ordered(146097 * (-14695), z0, 146097);
    }
    assert(era < 14704) by {
        lemma_multiply_divide_lt(z0, 146097, 14704);
    }
    lemma_doy_of_doe(doe);
    assert(era * 400 >= -14695 * 400 && era * 400 <= 14703 * 400) by (nonlinear_arith)
        requires
            -14695 <= era <= 14703,
    ;
}

/// Days in month `m` of year `y`, as executable code.
fn days_in_month_exec(y: i32, m: u32) -> (r: u32)
    requires
        1 <= m <= 12,
    ensures
        r as int == days_in_month(y as int, m as int),
{
    if m == 2 {
        let ys: u64 = ((y as i64) + 2400000000) as u64;
        proof {
            lemma_mod_multiples_vanish(600000000, y as int, 4);
            lemma_mod_multiples_vanish(24000000, y as int, 100);
            lemma_mod_multiples_vanish(6000000, y as int, 400);
        }
        if (ys % 4 == 0 && ys % 100 != 0) || ys % 400 == 0 {
            29
        } else {
            28
        }
    } else if m == 4 || m == 6 || m == 9 || m == 11 {
        30
    } else {
        31
    }
}

/// First day-of-era of year-of-era `yoe`, as executable code.
fn start_of_yoe_exec(yoe: u64) -> (r: u64)
    requires
        yoe <= 400,
    ensures
        r as int == start_of_yoe(yoe as int),
{
    proof {
        lemma_div_is_ordered(0, yoe as int, 4);
        lemma_div_is_ordered(0, yoe as int, 100);
        lemma_div_is_ordered(yoe as int, 400, 100);
        lemma_multiply_divide_lt(yoe as int, 4, 101);
    }
    365 * yoe + yoe / 4 - yoe / 100
}

/// First day-of-year of the month with March-based index `mp`, as executable code.
fn march_month_offset_exec(mp: u64) -> (r: u64)
    requires
        mp <= 11,
    ensures
        r as int == march_month_offset(mp as int),
{
    if mp == 0 { 0 }
    else if mp == 1 { 31 }
    else if mp == 2 { 61 }
    else if mp == 3 { 92 }
    else if mp == 4 { 122 }
    else if mp == 5 { 153 }
    else if mp == 6 { 184 }
    else if mp == 7 { 214 }
    else if mp == 8 { 245 }
    else if mp == 9 { 275 }
    else if mp == 10 { 306 }
    else { 337 }
}

/// Calendar date of a signed day count since 1970-01-01, correct over the
/// whole 32-bit range, pre-epoch days included.
pub fn days_to_date(days: i32) -> (r: ExDate)
    ensures
        r == date_of_days(days as int),
        valid_ymd(r.year as int, r.month as int, r.day as int),
        days_from_civil(r.year as int, r.month as int, r.day as int) == days as int,
{
    let ghost z: int = days as int;
    let ghost z0: int = z + 719468;
    let z0s: u64 = ((days as i64) + 2192174468) as u64;
    proof {
        assert(z0s as int == z0 + 146097 * 15000);
    }
    let era_s: u64 = z0s / 146097;
    let doe: u64 = z0s % 146097;
    proof {
        lemma_hoist_over_denominator(z0, 15000, 146097nat);
        lemma_mod_multiples_vanish(15000, z0, 146097);
        lemma_mod_division_less_than_divisor(z0, 146097);
        assert(era_s as int == z0 / 146097 + 15000);
        assert(doe as int == z0 % 146097);
        assert(era_s < 29704) by {
            lemma_multiply_divide_lt(z0s as int, 146097, 29704);
        }
        assert(era_s >= 305) by {
            lemma_div_multiples_vanish(305, 146097);
            lemma_div_is_ordered(146097int * 305, z0s as int, 146097);
        }
    }
    let mut yoe: u64 = 0;
    while yoe < 399 && doe >= start_of_yoe_exec(yoe + 1)
        invariant
            yoe <= 399,
            doe <= 146096,
            start_of_yoe(yoe as int) <= doe as int,
            yoe_of_doe_from(doe as int, yoe as int) == yoe_of_doe_from(doe as int, 0),
        decreases 399 - yoe,
    {
        yoe = yoe + 1;
    }
    proof {
        assert(yoe as int == yoe_of_doe_from(doe as int, 0));
        lemma_doy_of_doe(doe as int);
        lemma_days_round_trip(z);
        lemma_civil_year_bounds(z);
    }
    let start: u64 = start_of_yoe_exec(yoe);
    let doy: u64 = doe - start;
    let mp: u64 =
        if doy < 31 { 0 }
        else if doy < 61 { 1 }
        else if doy < 92 { 2 }
        else if doy < 122 { 3 }
        else if doy < 153 { 4 }
        else if doy < 184 { 5 }
        else if doy < 214 { 6 }
        else if doy < 245 { 7 }
        else if doy < 275 { 8 }
        else if doy < 306 { 9 }
        else if doy < 337 { 10 }
        else { 11 };
    let off: u64 = march_month_offset_exec(mp);
    let d: u64 = doy - off + 1;
    let m: u64 = if mp < 10 { mp + 3 } else { mp - 9 };
    let y: i64 = ((era_s as i64) - 15000) * 400 + (yoe as i64) + (if m <= 2 { 1 } else { 0 });
    ExDate { day: d as u32, month: m as u32, year: y as i32 }
}

/// Signed day count since 1970-01-01 of a calendar date. Reports an invalid
/// date, and a count that does not fit 32 bits, as errors.
pub fn date_to_days(d: &ExDate) -> (r: Result<i32, ExplorerError>)
    ensures
        !valid_ymd(d.year as int, d.month as int, d.day as int) <==> r == Err::<
            i32,
            ExplorerError,
        >(ExplorerError::InvalidDate),
        valid_ymd(d.year as int, d.month as int, d.day as int) && !day_in_range(
            days_from_civil(d.year as int, d.month as int, d.day as int),
        ) <==> r == Err::<i32, ExplorerError>(ExplorerError::ConversionOverflow),
        valid_ymd(d.year as int, d.month as int, d.day as int) && day_in_range(
            days_from_civil(d.year as int, d.month as int, d.day as int),
        ) ==> (r matches Ok(n) && n as int == days_from_civil(
            d.year as int,
            d.month as int,
            d.day as int,
        )),
{
    if d.month < 1 || d.month > 12 {
        return Err(ExplorerError::InvalidDate);
    }
    let dim: u32 = days_in_month_exec(d.year, d.month);
    if d.day < 1 || d.day > dim {
        return Err(ExplorerError::InvalidDate);
    }
    let y2: i64 = if d.month <= 2 { (d.year as i64) - 1 } else { d.year as i64 };
    let y2s: u64 = (y2 + 2400000000) as u64;
    let era_s: u64 = y2s / 400;
    let yoe: u64 = y2s % 400;
    proof {
        lemma_hoist_over_denominator(y2 as int, 6000000, 400nat);
        lemma_mod_multiples_vanish(6000000, y2 as int, 400);
        lemma_mod_division_less_than_divisor(y2 as int, 400);
        assert(era_s as int == y2 as int / 400 + 6000000);
        assert(yoe as int == y2 as int % 400);
        assert(era_s < 11368710) by {
            lemma_multiply_divide_lt(y2s as int, 400, 11368710);
        }
    }
    let start: u64 = start_of_yoe_exec(yoe);
    let mp: u64 = if d.month >= 3 { (d.month - 3) as u64 } else { (d.month + 9) as u64 };
    let off: u64 = march_month_offset_exec(mp);
    let doe: u64 = start + off + (d.day as u64) - 1;
    let days_i: i64 = ((era_s as i64) - 6000000) * 146097 + (doe as i64) - 719468;
    if days_i < -2147483648 || days_i > 2147483647 {
        Err(ExplorerError::ConversionOverflow)
    } else {
        Ok(days_i as i32)
    }
}

} // verus!
