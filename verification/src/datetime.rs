use vstd::prelude::*;
use crate::error::ExplorerError;
use crate::calendar::{
    ExDate, valid_ymd, days_from_civil, civil_from_days, day_in_range,
    days_to_date, date_to_days, lemma_days_round_trip, lemma_civil_year_bounds,
};
use vstd::arithmetic::div_mod::{
    lemma_fundamental_div_mod, lemma_mod_division_less_than_divisor,
    lemma_mod_multiples_vanish, lemma_div_multiples_vanish, lemma_hoist_over_denominator,
    lemma_multiply_divide_lt, lemma_div_is_ordered, lemma_div_pos_is_pos,
    lemma_mod_multiples_basic,
};

verus! {

/// A calendar date and time of day, millisecond-counted against the epoch
/// 1970-01-01T00:00:00.000, with a microsecond-capable sub-second field.
/// The second member of `microsecond` is the fixed display precision, 3,
/// meaning that the microsecond value is millisecond-aligned on export.
#[derive(Clone, Copy, Debug, PartialEq, Eq)]
pub struct ExDateTime {
    pub day: u32,
    pub month: u32,
    pub year: i32,
    pub hour: u32,
    pub minute: u32,
    pub second: u32,
    pub microsecond: (u32, u32),
}

/// A structurally valid date and time of day.
pub open spec fn valid_datetime(dt: ExDateTime) -> bool {
    &&& valid_ymd(dt.year as int, dt.month as int, dt.day as int)
    &&& dt.hour <= 23
    &&& dt.minute <= 59
    &&& dt.second <= 59
    &&& dt.microsecond.0 < 1000000
}

/// Signed milliseconds since the epoch of a date-time value. Sub-millisecond
/// precision is truncated, never rounded.
pub open spec fn datetime_millis(dt: ExDateTime) -> int {
    days_from_civil(dt.year as int, dt.month as int, dt.day as int) * 86400000 + (
    dt.hour * 3600 + dt.minute * 60 + dt.second) * 1000 + dt.microsecond.0 as int / 1000
}

/// A millisecond count whose day count fits the 32-bit wire encoding of dates.
pub open spec fn ms_in_range(ms: int) -> bool {
    -185542587187200000 <= ms <= 185542587187199999
}

/// The date-time value of a signed millisecond count since the epoch: the
/// count is floor-divided into whole days and a non-negative time of day, so
/// that pre-epoch instants land in the calendar day they belong to.
pub open spec fn datetime_of_millis(ms: int) -> ExDateTime {
    let days = ms / 86400000;
    let msod = ms % 86400000;
    ExDateTime {
        day: civil_from_days(days).2 as u32,
        month: civil_from_days(days).1 as u32,
        year: civil_from_days(days).0 as i32,
        hour: (msod / 3600000) as u32,
        minute: ((msod % 3600000) / 60000) as u32,
        second: (((msod % 3600000) % 60000) / 1000) as u32,
        microsecond: (((((msod % 3600000) % 60000) % 1000) * 1000) as u32, 3u32),
    }
}

/// Every in-range millisecond count names a valid date-time whose
/// millisecond count is the original one: the conversion loses nothing,
/// negatives and non-multiples of a second included.
pub proof fn lemma_millis_round_trip(ms: int)
    requires
        ms_in_range(ms),
    ensures
        valid_datetime(datetime_of_millis(ms)),
        datetime_millis(datetime_of_millis(ms)) == ms,
        datetime_of_millis(ms).microsecond.0 % 1000 == 0,
{
    let days = ms / 86400000;
    let msod = ms % 86400000;
    lemma_fundamental_div_mod(ms, 86400000);
    lemma_mod_division_less_than_divisor(ms, 86400000);
    assert(days >= -2147483648) by {
        lemma_div_multiples_vanish(-2147483648, 86400000);
        lemma_div_is_ordered(86400000int * (-2147483648), ms, 86400000);
    }
    assert(days < 2147483648) by {
        lemma_multiply_divide_lt(ms, 86400000, 2147483648);
    }
    lemma_days_round_trip(days);
    lemma_civil_year_bounds(days);
    let h = msod / 3600000;
    let rem1 = msod % 3600000;
    lemma_fundamental_div_mod(msod, 3600000);
    lemma_mod_division_less_than_divisor(msod, 3600000);
    lemma_div_pos_is_pos(msod, 3600000);
    assert(h < 24) by {
        lemma_multiply_divide_lt(msod, 3600000, 24);
    }
    let mi = rem1 / 60000;
    let rem2 = rem1 % 60000;
    lemma_fundamental_div_mod(rem1, 60000);
    lemma_mod_division_less_than_divisor(rem1, 60000);
    lemma_div_pos_is_pos(rem1, 60000);
    assert(mi < 60) by {
        lemma_multiply_divide_lt(rem1, 60000, 60);
    }
    let s = rem2 / 1000;
    let msr = rem2 % 1000;
    lemma_fundamental_div_mod(rem2, 1000);
    lemma_mod_division_less_than_divisor(rem2, 1000);
    lemma_div_pos_is_pos(rem2, 1000);
    assert(s < 60) by {
        lemma_multiply_divide_lt(rem2, 1000, 60);
    }
    assert((msr * 1000) / 1000 == msr) by {
        lemma_div_multiples_vanish(msr, 1000);
        assert(msr * 1000 == 1000 * msr);
    }
    assert((msr * 1000) % 1000 == 0) by {
        lemma_mod_multiples_basic(msr, 1000);
    }
}

/// Date-time of a signed millisecond count since the epoch, exact over the
/// supported range. For negative counts the division floors, so an instant
/// such as half a second before the epoch lands on the preceding calendar
/// second with its remainder normalized into the sub-second field.
pub fn millis_to_datetime(ms: i64) -> (r: ExDateTime)
    requires
        ms_in_range(ms as int),
    ensures
        r == datetime_of_millis(ms as int),
        valid_datetime(r),
        datetime_millis(r) == ms as int,
        r.microsecond.1 == 3,
{
    proof {
        lemma_millis_round_trip(ms as int);
    }
    let sh: u64 = (ms + 185542587187200000) as u64;
    let days_s: u64 = sh / 86400000;
    let msod: u64 = sh % 86400000;
    proof {
        lemma_hoist_over_denominator(ms as int, 2147483648, 86400000nat);
        lemma_mod_multiples_vanish(2147483648, ms as int, 86400000);
        lemma_mod_division_less_than_divisor(ms as int, 86400000);
        assert(days_s as int == ms as int / 86400000 + 2147483648);
        assert(msod as int == ms as int % 86400000);
    }
    let days: i64 = (days_s as i64) - 2147483648;
    let date: ExDate = days_to_date(days as i32);
    let h: u64 = msod / 3600000;
    let rem1: u64 = msod % 3600000;
    let mi: u64 = rem1 / 60000;
    let rem2: u64 = rem1 % 60000;
    let s: u64 = rem2 / 1000;
    let msr: u64 = rem2 % 1000;
    ExDateTime {
        day: date.day,
        month: date.month,
        year: date.year,
        hour: h as u32,
        minute: mi as u32,
        second: s as u32,
        microsecond: ((msr as u32) * 1000, 3),
    }
}

/// Signed milliseconds since the epoch of a date-time value, truncating the
/// sub-second field to whole milliseconds. Reports invalid field values, and
/// a date whose day count does not fit 32 bits, as errors.
pub fn datetime_to_millis(dt: &ExDateTime) -> (r: Result<i64, ExplorerError>)
    ensures
        !valid_datetime(*dt) <==> r == Err::<i64, ExplorerError>(ExplorerError::InvalidDate),
        valid_datetime(*dt) && !day_in_range(
            days_from_civil(dt.year as int, dt.month as int, dt.day as int),
        ) <==> r == Err::<i64, ExplorerError>(ExplorerError::ConversionOverflow),
        valid_datetime(*dt) && day_in_range(
            days_from_civil(dt.year as int, dt.month as int, dt.day as int),
        ) ==> (r matches Ok(n) && n as int == datetime_millis(*dt)),
{
    if dt.hour > 23 || dt.minute > 59 || dt.second > 59 || dt.microsecond.0 >= 1000000 {
        return Err(ExplorerError::InvalidDate);
    }
    let date: ExDate = ExDate { day: dt.day, month: dt.month, year: dt.year };
    match date_to_days(&date) {
        Err(e) => Err(e),
        Ok(days) => {
            let ms: i64 = (days as i64) * 86400000 + ((dt.hour as i64) * 3600 + (dt.minute
                as i64) * 60 + (dt.second as i64)) * 1000 + ((dt.microsecond.0 / 1000) as i64);
            Ok(ms)
        },
    }
}

} // verus!
