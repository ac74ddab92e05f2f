use vstd::prelude::*;
use crate::error::ExplorerError;
use crate::calendar::{
    ExDate, valid_ymd, days_from_civil, date_of_days, day_in_range, days_to_date,
    date_to_days, lemma_days_round_trip, lemma_civil_year_bounds,
};
use crate::datetime::{
    ExDateTime, valid_datetime, datetime_millis, datetime_of_millis, ms_in_range,
    millis_to_datetime, datetime_to_millis,
};

verus! {

/// A scalar crossing the foreign boundary: a closed union of every value
/// shape the boundary understands. The `Float64` payload is carried as its
/// raw IEEE-754 bit pattern, converted at the boundary; this layer moves it
/// through unchanged and never interprets it.
#[derive(Clone, Debug, PartialEq, Eq)]
pub enum ExAnyValue {
    Boolean(bool),
    Utf8(String),
    Int32(i32),
    Int64(i64),
    UInt32(u32),
    Float64(u64),
    Datetime(ExDateTime),
    Date(ExDate),
}

/// A scalar in the engine's internal representation, with temporal values in
/// their raw epoch encodings: days since epoch for dates, milliseconds since
/// epoch for date-times. The `Float64Bits` payload is the raw bit pattern.
#[derive(Clone, Debug, PartialEq, Eq)]
pub enum EngineScalar {
    Boolean(bool),
    Utf8(String),
    Int32(i32),
    Int64(i64),
    UInt32(u32),
    Float64Bits(u64),
    DateDays(i32),
    DatetimeMs(i64),
}

/// The engine scalar a boundary scalar converts to: pass-through for the
/// plain shapes, the temporal codec for dates and date-times, an error for
/// calendar values that name no date or fall outside the encodable range.
pub open spec fn scalar_of_ex(v: ExAnyValue) -> Result<EngineScalar, ExplorerError> {
    match v {
        ExAnyValue::Boolean(b) => Ok(EngineScalar::Boolean(b)),
        ExAnyValue::Utf8(s) => Ok(EngineScalar::Utf8(s)),
        ExAnyValue::Int32(x) => Ok(EngineScalar::Int32(x)),
        ExAnyValue::Int64(x) => Ok(EngineScalar::Int64(x)),
        ExAnyValue::UInt32(x) => Ok(EngineScalar::UInt32(x)),
        ExAnyValue::Float64(x) => Ok(EngineScalar::Float64Bits(x)),
        ExAnyValue::Datetime(dt) => if !valid_datetime(dt) {
            Err(ExplorerError::InvalidDate)
        } else if !day_in_range(days_from_civil(dt.year as int, dt.month as int, dt.day as int)) {
            Err(ExplorerError::ConversionOverflow)
        } else {
            Ok(EngineScalar::DatetimeMs(datetime_millis(dt) as i64))
        },
        ExAnyValue::Date(d) => if !valid_ymd(d.year as int, d.month as int, d.day as int) {
            Err(ExplorerError::InvalidDate)
        } else if !day_in_range(days_from_civil(d.year as int, d.month as int, d.day as int)) {
            Err(ExplorerError::ConversionOverflow)
        } else {
            Ok(EngineScalar::DateDays(days_from_civil(d.year as int, d.month as int, d.day as int) as i32))
        },
    }
}

/// The boundary scalar an engine scalar converts to: pass-through for the
/// plain shapes, the temporal codec for the epoch encodings. Only a
/// millisecond count outside the encodable day range is an error; every day
/// count names a date.
pub open spec fn ex_of_scalar(sc: EngineScalar) -> Result<ExAnyValue, ExplorerError> {
    match sc {
        EngineScalar::Boolean(b) => Ok(ExAnyValue::Boolean(b)),
        EngineScalar::Utf8(s) => Ok(ExAnyValue::Utf8(s)),
        EngineScalar::Int32(x) => Ok(ExAnyValue::Int32(x)),
        EngineScalar::Int64(x) => Ok(ExAnyValue::Int64(x)),
        EngineScalar::UInt32(x) => Ok(ExAnyValue::UInt32(x)),
        EngineScalar::Float64Bits(x) => Ok(ExAnyValue::Float64(x)),
        EngineScalar::DateDays(n) => Ok(ExAnyValue::Date(date_of_days(n as int))),
        EngineScalar::DatetimeMs(ms) => if ms_in_range(ms as int) {
            Ok(ExAnyValue::Datetime(datetime_of_millis(ms as int)))
        } else {
            Err(ExplorerError::ConversionOverflow)
        },
    }
}

/// Convert a boundary scalar into the engine's representation, routing date
/// and date-time values through the temporal codec.
pub fn ex_to_scalar(v: ExAnyValue) -> (r: Result<EngineScalar, ExplorerError>)
    ensures
        r == scalar_of_ex(v),
{
    match v {
        ExAnyValue::Boolean(b) => Ok(EngineScalar::Boolean(b)),
        ExAnyValue::Utf8(s) => Ok(EngineScalar::Utf8(s)),
        ExAnyValue::Int32(x) => Ok(EngineScalar::Int32(x)),
        ExAnyValue::Int64(x) => Ok(EngineScalar::Int64(x)),
        ExAnyValue::UInt32(x) => Ok(EngineScalar::UInt32(x)),
        ExAnyValue::Float64(x) => Ok(EngineScalar::Float64Bits(x)),
        ExAnyValue::Datetime(dt) => match datetime_to_millis(&dt) {
            Ok(ms) => Ok(EngineScalar::DatetimeMs(ms)),
            Err(e) => Err(e),
        },
        ExAnyValue::Date(d) => match date_to_days(&d) {
            Ok(n) => Ok(EngineScalar::DateDays(n)),
            Err(e) => Err(e),
        },
    }
}

/// Convert an engine scalar into the boundary representation, routing the
/// epoch encodings through the temporal codec.
pub fn scalar_to_ex(sc: EngineScalar) -> (r: Result<ExAnyValue, ExplorerError>)
    ensures
        r == ex_of_scalar(sc),
{
    match sc {
        EngineScalar::Boolean(b) => Ok(ExAnyValue::Boolean(b)),
        EngineScalar::Utf8(s) => Ok(ExAnyValue::Utf8(s)),
        EngineScalar::Int32(x) => Ok(ExAnyValue::Int32(x)),
        EngineScalar::Int64(x) => Ok(ExAnyValue::Int64(x)),
        EngineScalar::UInt32(x) => Ok(ExAnyValue::UInt32(x)),
        EngineScalar::Float64Bits(x) => Ok(ExAnyValue::Float64(x)),
        EngineScalar::DateDays(n) => Ok(ExAnyValue::Date(days_to_date(n))),
        EngineScalar::DatetimeMs(ms) => if -185542587187200000 <= ms && ms <= 185542587187199999 {
            Ok(ExAnyValue::Datetime(millis_to_datetime(ms)))
        } else {
            Err(ExplorerError::ConversionOverflow)
        },
    }
}

/// Converting a date through the boundary and back recovers its day count
/// exactly, pre-1970 days included: the export and import directions of the
/// scalar bridge are inverse on every date value.
pub proof fn lemma_scalar_date_round_trip(n: i32)
    ensures
        ex_of_scalar(EngineScalar::DateDays(n)) matches Ok(v) && scalar_of_ex(v) == Ok::<
            EngineScalar,
            ExplorerError,
        >(EngineScalar::DateDays(n)),
{
    lemma_days_round_trip(n as int);
    lemma_civil_year_bounds(n as int);
}

} // verus!
