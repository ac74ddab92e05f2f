use vstd::prelude::*;
use crate::error::ExplorerError;
use crate::calendar::date_of_days;
use crate::datetime::{datetime_of_millis, ms_in_range};
use crate::value::{ExAnyValue, EngineScalar, ex_to_scalar, scalar_to_ex, scalar_of_ex, ex_of_scalar};
use polars::prelude::{AnyValue, DataType, Series, TimeUnit};

verus! {

/// The closed set of declared column element types this layer understands,
/// plus a marker for everything else. Any other declared type must surface
/// as an explicit unsupported-dtype error, never abort the process.
#[derive(Clone, Copy, Debug, PartialEq, Eq, Structural)]
pub enum DType {
    Boolean,
    Utf8,
    Int32,
    Int64,
    UInt32,
    Float64,
    Date,
    DatetimeMs,
    ListUInt32,
    Other,
}

#[verifier::external_type_specification]
#[verifier::external_body]
pub struct ExSeriesShape(Series);

#[verifier::external_type_specification]
#[verifier::external_body]
pub struct ExPolarsErrorShape(polars::prelude::PolarsError);

#[verifier::external_type_specification]
#[verifier::external_body]
pub struct ExAnyValueShape<'a>(AnyValue<'a>);

/// The declared element type of a column, folded into the closed set.
pub uninterp spec fn dtype_of(s: Series) -> DType;

/// The rows of a boolean column, one entry per row in row order.
pub uninterp spec fn bool_rows(s: Series) -> Seq<Option<bool>>;

/// The rows of a string column, each as its character sequence.
pub uninterp spec fn str_rows(s: Series) -> Seq<Option<Seq<char>>>;

/// The rows of a 32-bit signed integer column.
pub uninterp spec fn i32_rows(s: Series) -> Seq<Option<i32>>;

/// The rows of a 64-bit signed integer column.
pub uninterp spec fn i64_rows(s: Series) -> Seq<Option<i64>>;

/// The rows of a 32-bit unsigned integer column.
pub uninterp spec fn u32_rows(s: Series) -> Seq<Option<u32>>;

/// The rows of a 64-bit float column, each as its raw IEEE-754 bit pattern.
pub uninterp spec fn f64_bits_rows(s: Series) -> Seq<Option<u64>>;

/// The rows of a date column, each as its signed day count since the epoch.
pub uninterp spec fn date_rows(s: Series) -> Seq<Option<i32>>;

/// The rows of a millisecond date-time column, each as its signed
/// millisecond count since the epoch.
pub uninterp spec fn datetime_ms_rows(s: Series) -> Seq<Option<i64>>;

/// The rows of a list-of-uint32 column, each row itself an ordered sequence
/// of optional values.
pub uninterp spec fn list_u32_rows(s: Series) -> Seq<Option<Seq<Option<u32>>>>;

/// The engine scalar that a dynamically typed engine value reads as: its
/// payload moved into the matching variant of the closed set, with strings
/// copied, floats as raw bit patterns and temporal values as their epoch
/// integers; `None` for every variant outside the set.
pub uninterp spec fn scalar_view(av: AnyValue) -> Option<EngineScalar>;

/// Relies on polars' `Series::dtype`: the declared element type of the
/// column, matched one variant at a time into the closed set.
#[verifier::external_body]
fn series_dtype(s: &Series) -> (t: DType)
    ensures
        t == dtype_of(*s),
{
    match s.dtype() {
        DataType::Boolean => DType::Boolean,
        DataType::String => DType::Utf8,
        DataType::Int32 => DType::Int32,
        DataType::Int64 => DType::Int64,
        DataType::UInt32 => DType::UInt32,
        DataType::Float64 => DType::Float64,
        DataType::Date => DType::Date,
        DataType::Datetime(TimeUnit::Milliseconds, None) => DType::DatetimeMs,
        DataType::List(inner) => match inner.as_ref() {
            DataType::UInt32 => DType::ListUInt32,
            _ => DType::Other,
        },
        _ => DType::Other,
    }
}

/// Relies on polars' `Series::bool` (the downcast succeeds exactly on a
/// boolean column) and `ChunkedArray::iter`: one optional value per row, in
/// row order.
#[verifier::external_body]
fn series_bool_rows(s: &Series) -> (r: Vec<Option<bool>>)
    requires
        dtype_of(*s) == DType::Boolean,
    ensures
        r@ == bool_rows(*s),
{
    s.bool().unwrap().iter().collect()
}

/// Relies on polars' `Series::str` and `ChunkedArray::iter`: one optional
/// string per row, in row order, copied into owned values.
#[verifier::external_body]
fn series_str_rows(s: &Series) -> (r: Vec<Option<String>>)
    requires
        dtype_of(*s) == DType::Utf8,
    ensures
        r@.len() == str_rows(*s).len(),
        forall|i: int|
            #![trigger r@[i]]
            0 <= i < r@.len() ==> match (r@[i], str_rows(*s)[i]) {
                (Some(a), Some(b)) => a@ == b,
                (None, None) => true,
                _ => false,
            },
{
    s.str().unwrap().iter().map(|o| o.map(|v| v.to_string())).collect()
}

/// Relies on polars' `Series::i32` and `ChunkedArray::iter`.
#[verifier::external_body]
fn series_i32_rows(s: &Series) -> (r: Vec<Option<i32>>)
    requires
        dtype_of(*s) == DType::Int32,
    ensures
        r@ == i32_rows(*s),
{
    s.i32().unwrap().iter().collect()
}

/// Relies on polars' `Series::i64` and `ChunkedArray::iter`.
#[verifier::external_body]
fn series_i64_rows(s: &Series) -> (r: Vec<Option<i64>>)
    requires
        dtype_of(*s) == DType::Int64,
    ensures
        r@ == i64_rows(*s),
{
    s.i64().unwrap().iter().collect()
}

/// Relies on polars' `Series::u32` and `ChunkedArray::iter`.
#[verifier::external_body]
fn series_u32_rows(s: &Series) -> (r: Vec<Option<u32>>)
    requires
        dtype_of(*s) == DType::UInt32,
    ensures
        r@ == u32_rows(*s),
{
    s.u32().unwrap().iter().collect()
}

/// Relies on polars' `Series::get`: on a 64-bit float column each row comes
/// back as a `Float64` value, or `Null` where the row is absent; each value
/// is converted one-for-one to its raw bit pattern.
#[verifier::external_body]
fn series_f64_bits_rows(s: &Series) -> (r: Vec<Option<u64>>)
    requires
        dtype_of(*s) == DType::Float64,
    ensures
        r@ == f64_bits_rows(*s),
{
    (0..s.len()).map(|i| match s.get(i) {
        Ok(AnyValue::Float64(v)) => Some(v.to_bits()),
        _ => None,
    }).collect()
}

/// Relies on polars' `Series::date` and the iteration of its physical
/// 32-bit day-count representation.
#[verifier::external_body]
fn series_date_rows(s: &Series) -> (r: Vec<Option<i32>>)
    requires
        dtype_of(*s) == DType::Date,
    ensures
        r@ == date_rows(*s),
{
    s.date().unwrap().physical().iter().collect()
}

/// Relies on polars' `Series::datetime` and the iteration of its physical
/// 64-bit millisecond-count representation.
#[verifier::external_body]
fn series_datetime_ms_rows(s: &Series) -> (r: Vec<Option<i64>>)
    requires
        dtype_of(*s) == DType::DatetimeMs,
    ensures
        r@ == datetime_ms_rows(*s),
{
    s.datetime().unwrap().physical().iter().collect()
}

/// Relies on polars' `Series::list`, `ListChunked::get_as_series` (null rows
/// come back as `None`, present rows as a series of the inner physical
/// type), and `Series::u32` on each inner series.
#[verifier::external_body]
fn series_list_u32_rows(s: &Series) -> (r: Vec<Option<Vec<Option<u32>>>>)
    requires
        dtype_of(*s) == DType::ListUInt32,
    ensures
        r@.len() == list_u32_rows(*s).len(),
        forall|i: int|
            #![trigger r@[i]]
            0 <= i < r@.len() ==> match (r@[i], list_u32_rows(*s)[i]) {
                (Some(a), Some(b)) => a@ == b,
                (None, None) => true,
                _ => false,
            },
{
    let ca = s.list().unwrap();
    (0..ca.len()).map(|i| {
        ca.get_as_series(i).map(|inner| inner.u32().unwrap().iter().collect())
    }).collect()
}

/// Relies on polars' `AnyValue` constructors: each engine scalar is placed
/// into the matching variant, one arm per shape, moving the payload only;
/// the raw bit pattern is restored to its float shape at this boundary, and
/// reading the built value back recovers the scalar it was built from.
#[verifier::external_body]
fn any_value_of_scalar(sc: EngineScalar) -> (r: AnyValue<'static>)
    ensures
        scalar_view(r) == Some(sc),
{
    match sc {
        EngineScalar::Boolean(b) => AnyValue::Boolean(b),
        EngineScalar::Utf8(s) => AnyValue::StringOwned(s.into()),
        EngineScalar::Int32(x) => AnyValue::Int32(x),
        EngineScalar::Int64(x) => AnyValue::Int64(x),
        EngineScalar::UInt32(x) => AnyValue::UInt32(x),
        EngineScalar::Float64Bits(x) => AnyValue::Float64(bytemuck::cast(x)),
        EngineScalar::DateDays(n) => AnyValue::Date(n),
        EngineScalar::DatetimeMs(ms) => AnyValue::Datetime(ms, TimeUnit::Milliseconds, None),
    }
}

/// Relies on polars' `AnyValue` variants: each supported variant is read
/// into the matching engine scalar, one arm per shape, moving the payload
/// only; every variant outside the closed set comes back as `None`.
#[verifier::external_body]
fn scalar_of_any_value(av: AnyValue<'_>) -> (r: Option<EngineScalar>)
    ensures
        r == scalar_view(av),
{
    match av {
        AnyValue::Boolean(b) => Some(EngineScalar::Boolean(b)),
        AnyValue::String(v) => Some(EngineScalar::Utf8(v.to_string())),
        AnyValue::StringOwned(v) => Some(EngineScalar::Utf8(v.to_string())),
        AnyValue::Int32(x) => Some(EngineScalar::Int32(x)),
        AnyValue::Int64(x) => Some(EngineScalar::Int64(x)),
        AnyValue::UInt32(x) => Some(EngineScalar::UInt32(x)),
        AnyValue::Float64(x) => Some(EngineScalar::Float64Bits(x.to_bits())),
        AnyValue::Date(n) => Some(EngineScalar::DateDays(n)),
        AnyValue::Datetime(ms, _, _) => Some(EngineScalar::DatetimeMs(ms)),
        AnyValue::DatetimeOwned(ms, _, _) => Some(EngineScalar::DatetimeMs(ms)),
        _ => None,
    }
}

/// Convert a boundary scalar into the engine's dynamically typed scalar,
/// routing calendar values through the temporal codec: on success the built
/// engine value reads back as exactly the converted scalar, and the error
/// cases are exactly those of the verified scalar conversion.
pub fn ex_to_any_value(v: ExAnyValue) -> (r: Result<AnyValue<'static>, ExplorerError>)
    ensures
        scalar_of_ex(v) matches Ok(sc) ==> (r matches Ok(a) && scalar_view(a) == Some(sc)),
        scalar_of_ex(v) matches Err(e) ==> r == Err::<AnyValue<'static>, ExplorerError>(e),
{
    match ex_to_scalar(v) {
        Ok(sc) => Ok(any_value_of_scalar(sc)),
        Err(e) => Err(e),
    }
}

/// Convert an engine scalar into the boundary representation. A variant
/// outside the closed supported set is reported as an unsupported-dtype
/// error, if and only if; a supported variant converts exactly as the
/// verified scalar conversion says, with a millisecond count outside the
/// encodable range reported as an overflow.
pub fn any_value_to_ex(av: AnyValue<'_>) -> (r: Result<ExAnyValue, ExplorerError>)
    ensures
        scalar_view(av) is None <==> r == Err::<ExAnyValue, ExplorerError>(
            ExplorerError::UnsupportedDtype,
        ),
        scalar_view(av) matches Some(sc) ==> r == ex_of_scalar(sc),
{
    match scalar_of_any_value(av) {
        Some(sc) => scalar_to_ex(sc),
        None => Err(ExplorerError::UnsupportedDtype),
    }
}

/// A whole column materialized for the boundary: one entry per row,
/// preserving row order and null markers. A list-of-uint32 column keeps its
/// nested shape.
#[derive(Clone, Debug, PartialEq, Eq)]
pub enum EncodedSeries {
    Scalars(Vec<Option<ExAnyValue>>),
    UInt32Lists(Vec<Option<Vec<Option<u32>>>>),
}

/// Whether every present millisecond row is inside the encodable range.
pub open spec fn all_ms_in_range(rows: Seq<Option<i64>>) -> bool {
    forall|i: int|
        #![trigger rows[i]]
        0 <= i < rows.len() ==> (rows[i] matches Some(ms) ==> ms_in_range(ms as int))
}

/// Boolean rows exported one-for-one, nulls preserved.
pub open spec fn enc_bools(rows: Seq<Option<bool>>, out: Seq<Option<ExAnyValue>>) -> bool {
    out.len() == rows.len() && forall|i: int|
        0 <= i < rows.len() ==> out[i] == (match rows[i] {
            Some(b) => Some(ExAnyValue::Boolean(b)),
            None => None::<ExAnyValue>,
        })
}

/// String rows exported as owned copies, nulls preserved.
pub open spec fn enc_strs(rows: Seq<Option<Seq<char>>>, out: Seq<Option<ExAnyValue>>) -> bool {
    out.len() == rows.len() && forall|i: int|
        #![trigger out[i]]
        0 <= i < rows.len() ==> match (out[i], rows[i]) {
            (Some(ExAnyValue::Utf8(a)), Some(b)) => a@ == b,
            (None, None) => true,
            _ => false,
        }
}

/// 32-bit signed rows exported one-for-one, nulls preserved.
pub open spec fn enc_i32s(rows: Seq<Option<i32>>, out: Seq<Option<ExAnyValue>>) -> bool {
    out.len() == rows.len() && forall|i: int|
        0 <= i < rows.len() ==> out[i] == (match rows[i] {
            Some(x) => Some(ExAnyValue::Int32(x)),
            None => None::<ExAnyValue>,
        })
}

/// 64-bit signed rows exported one-for-one, nulls preserved.
pub open spec fn enc_i64s(rows: Seq<Option<i64>>, out: Seq<Option<ExAnyValue>>) -> bool {
    out.len() == rows.len() && forall|i: int|
        0 <= i < rows.len() ==> out[i] == (match rows[i] {
            Some(x) => Some(ExAnyValue::Int64(x)),
            None => None::<ExAnyValue>,
        })
}

/// 32-bit unsigned rows exported one-for-one, nulls preserved.
pub open spec fn enc_u32s(rows: Seq<Option<u32>>, out: Seq<Option<ExAnyValue>>) -> bool {
    out.len() == rows.len() && forall|i: int|
        0 <= i < rows.len() ==> out[i] == (match rows[i] {
            Some(x) => Some(ExAnyValue::UInt32(x)),
            None => None::<ExAnyValue>,
        })
}

/// Float rows exported one-for-one as bit patterns, nulls preserved.
pub open spec fn enc_f64s(rows: Seq<Option<u64>>, out: Seq<Option<ExAnyValue>>) -> bool {
    out.len() == rows.len() && forall|i: int|
        0 <= i < rows.len() ==> out[i] == (match rows[i] {
            Some(x) => Some(ExAnyValue::Float64(x)),
            None => None::<ExAnyValue>,
        })
}

/// Date rows routed through the day-count decoder, nulls preserved.
pub open spec fn enc_dates(rows: Seq<Option<i32>>, out: Seq<Option<ExAnyValue>>) -> bool {
    out.len() == rows.len() && forall|i: int|
        0 <= i < rows.len() ==> out[i] == (match rows[i] {
            Some(n) => Some(ExAnyValue::Date(date_of_days(n as int))),
            None => None::<ExAnyValue>,
        })
}

/// Date-time rows routed through the millisecond decoder, nulls preserved.
pub open spec fn enc_datetimes(rows: Seq<Option<i64>>, out: Seq<Option<ExAnyValue>>) -> bool {
    out.len() == rows.len() && forall|i: int|
        0 <= i < rows.len() ==> out[i] == (match rows[i] {
            Some(ms) => Some(ExAnyValue::Datetime(datetime_of_millis(ms as int))),
            None => None::<ExAnyValue>,
        })
}

/// Nested list rows exported with both levels of null markers preserved.
pub open spec fn enc_lists(
    rows: Seq<Option<Seq<Option<u32>>>>,
    out: Seq<Option<Vec<Option<u32>>>>,
) -> bool {
    out.len() == rows.len() && forall|i: int|
        #![trigger out[i]]
        0 <= i < rows.len() ==> match (out[i], rows[i]) {
            (Some(a), Some(b)) => a@ == b,
            (None, None) => true,
            _ => false,
        }
}

/// What a successful export of a column holds, by declared element type.
pub open spec fn encodes(s: Series, enc: EncodedSeries) -> bool {
    match dtype_of(s) {
        DType::Boolean => enc matches EncodedSeries::Scalars(v) && enc_bools(bool_rows(s), v@),
        DType::Utf8 => enc matches EncodedSeries::Scalars(v) && enc_strs(str_rows(s), v@),
        DType::Int32 => enc matches EncodedSeries::Scalars(v) && enc_i32s(i32_rows(s), v@),
        DType::Int64 => enc matches EncodedSeries::Scalars(v) && enc_i64s(i64_rows(s), v@),
        DType::UInt32 => enc matches EncodedSeries::Scalars(v) && enc_u32s(u32_rows(s), v@),
        DType::Float64 => enc matches EncodedSeries::Scalars(v) && enc_f64s(f64_bits_rows(s), v@),
        DType::Date => enc matches EncodedSeries::Scalars(v) && enc_dates(date_rows(s), v@),
        DType::DatetimeMs => enc matches EncodedSeries::Scalars(v) && enc_datetimes(
            datetime_ms_rows(s),
            v@,
        ),
        DType::ListUInt32 => enc matches EncodedSeries::UInt32Lists(v) && enc_lists(
            list_u32_rows(s),
            v@,
        ),
        DType::Other => false,
    }
}

/// Exporting a date column and importing each exported tagged value back
/// through the scalar bridge reproduces the original day counts exactly,
/// row for row, null markers and pre-1970 values included.
pub proof fn lemma_date_series_round_trip(rows: Seq<Option<i32>>, out: Seq<Option<ExAnyValue>>)
    requires
        enc_dates(rows, out),
    ensures
        forall|i: int|
            #![trigger out[i]]
            0 <= i < rows.len() ==> match (rows[i], out[i]) {
                (Some(n), Some(v)) => scalar_of_ex(v) == Ok::<EngineScalar, ExplorerError>(
                    EngineScalar::DateDays(n),
                ),
                (None, None) => true,
                _ => false,
            },
{
    assert forall|i: int| #![trigger out[i]] 0 <= i < rows.len() implies match (rows[i], out[i]) {
        (Some(n), Some(v)) => scalar_of_ex(v) == Ok::<EngineScalar, ExplorerError>(
            EngineScalar::DateDays(n),
        ),
        (None, None) => true,
        _ => false,
    } by {
        match rows[i] {
            Some(n) => {
                crate::value::lemma_scalar_date_round_trip(n);
            },
            None => {},
        }
    }
}

/// Export boolean rows one-for-one.
fn encode_bools(rows: &Vec<Option<bool>>) -> (out: Vec<Option<ExAnyValue>>)
    ensures
        enc_bools(rows@, out@),
{
    let mut out: Vec<Option<ExAnyValue>> = Vec::new();
    let mut i: usize = 0;
    while i < rows.len()
        invariant
            i <= rows.len(),
            out@.len() == i as int,
            forall|j: int|
                #![trigger out@[j]]
                0 <= j < i as int ==> out@[j] == (match rows@[j] {
                    Some(b) => Some(ExAnyValue::Boolean(b)),
                    None => None::<ExAnyValue>,
                }),
        decreases rows@.len() - i,
    {
        let x: Option<ExAnyValue> = match rows[i] {
            Some(b) => Some(ExAnyValue::Boolean(b)),
            None => None,
        };
        out.push(x);
        i = i + 1;
    }
    out
}

/// Export string rows as owned copies.
fn encode_strs(rows: &Vec<Option<String>>) -> (out: Vec<Option<ExAnyValue>>)
    ensures
        out@.len() == rows@.len(),
        forall|j: int|
            #![trigger out@[j]]
            0 <= j < rows@.len() ==> match (out@[j], rows@[j]) {
                (Some(ExAnyValue::Utf8(a)), Some(b)) => a@ == b@,
                (None, None) => true,
                _ => false,
            },
{
    let mut out: Vec<Option<ExAnyValue>> = Vec::new();
    let mut i: usize = 0;
    while i < rows.len()
        invariant
            i <= rows.len(),
            out@.len() == i as int,
            forall|j: int|
                #![trigger out@[j]]
                0 <= j < i as int ==> match (out@[j], rows@[j]) {
                    (Some(ExAnyValue::Utf8(a)), Some(b)) => a@ == b@,
                    (None, None) => true,
                    _ => false,
                },
        decreases rows@.len() - i,
    {
        let x: Option<ExAnyValue> = match rows[i].as_ref() {
            Some(v) => Some(ExAnyValue::Utf8(v.clone())),
            None => None,
        };
        out.push(x);
        i = i + 1;
    }
    out
}

/// Export 32-bit signed rows one-for-one.
fn encode_i32s(rows: &Vec<Option<i32>>) -> (out: Vec<Option<ExAnyValue>>)
    ensures
        enc_i32s(rows@, out@),
{
    let mut out: Vec<Option<ExAnyValue>> = Vec::new();
    let mut i: usize = 0;
    while i < rows.len()
        invariant
            i <= rows.len(),
            out@.len() == i as int,
            forall|j: int|
                #![trigger out@[j]]
                0 <= j < i as int ==> out@[j] == (match rows@[j] {
                    Some(x) => Some(ExAnyValue::Int32(x)),
                    None => None::<ExAnyValue>,
                }),
        decreases rows@.len() - i,
    {
        let x: Option<ExAnyValue> = match rows[i] {
            Some(v) => Some(ExAnyValue::Int32(v)),
            None => None,
        };
        out.push(x);
        i = i + 1;
    }
    out
}

/// Export 64-bit signed rows one-for-one.
fn encode_i64s(rows: &Vec<Option<i64>>) -> (out: Vec<Option<ExAnyValue>>)
    ensures
        enc_i64s(rows@, out@),
{
    let mut out: Vec<Option<ExAnyValue>> = Vec::new();
    let mut i: usize = 0;
    while i < rows.len()
        invariant
            i <= rows.len(),
            out@.len() == i as int,
            forall|j: int|
                #![trigger out@[j]]
                0 <= j < i as int ==> out@[j] == (match rows@[j] {
                    Some(x) => Some(ExAnyValue::Int64(x)),
                    None => None::<ExAnyValue>,
                }),
        decreases rows@.len() - i,
    {
        let x: Option<ExAnyValue> = match rows[i] {
            Some(v) => Some(ExAnyValue::Int64(v)),
            None => None,
        };
        out.push(x);
        i = i + 1;
    }
    out
}

/// Export 32-bit unsigned rows one-for-one.
fn encode_u32s(rows: &Vec<Option<u32>>) -> (out: Vec<Option<ExAnyValue>>)
    ensures
        enc_u32s(rows@, out@),
{
    let mut out: Vec<Option<ExAnyValue>> = Vec::new();
    let mut i: usize = 0;
    while i < rows.len()
        invariant
            i <= rows.len(),
            out@.len() == i as int,
            forall|j: int|
                #![trigger out@[j]]
                0 <= j < i as int ==> out@[j] == (match rows@[j] {
                    Some(x) => Some(ExAnyValue::UInt32(x)),
                    None => None::<ExAnyValue>,
                }),
        decreases rows@.len() - i,
    {
        let x: Option<ExAnyValue> = match rows[i] {
            Some(v) => Some(ExAnyValue::UInt32(v)),
            None => None,
        };
        out.push(x);
        i = i + 1;
    }
    out
}

/// Export float rows one-for-one as bit patterns.
fn encode_f64s(rows: &Vec<Option<u64>>) -> (out: Vec<Option<ExAnyValue>>)
    ensures
        enc_f64s(rows@, out@),
{
    let mut out: Vec<Option<ExAnyValue>> = Vec::new();
    let mut i: usize = 0;
    while i < rows.len()
        invariant
            i <= rows.len(),
            out@.len() == i as int,
            forall|j: int|
                #![trigger out@[j]]
                0 <= j < i as int ==> out@[j] == (match rows@[j] {
                    Some(x) => Some(ExAnyValue::Float64(x)),
                    None => None::<ExAnyValue>,
                }),
        decreases rows@.len() - i,
    {
        let x: Option<ExAnyValue> = match rows[i] {
            Some(v) => Some(ExAnyValue::Float64(v)),
            None => None,
        };
        out.push(x);
        i = i + 1;
    }
    out
}

/// Export date rows through the day-count decoder.
fn encode_dates(rows: &Vec<Option<i32>>) -> (out: Vec<Option<ExAnyValue>>)
    ensures
        enc_dates(rows@, out@),
{
    let mut out: Vec<Option<ExAnyValue>> = Vec::new();
    let mut i: usize = 0;
    while i < rows.len()
        invariant
            i <= rows.len(),
            out@.len() == i as int,
            forall|j: int|
                #![trigger out@[j]]
                0 <= j < i as int ==> out@[j] == (match rows@[j] {
                    Some(n) => Some(ExAnyValue::Date(date_of_days(n as int))),
                    None => None::<ExAnyValue>,
                }),
        decreases rows@.len() - i,
    {
        let x: Option<ExAnyValue> = match rows[i] {
            Some(n) => Some(ExAnyValue::Date(crate::calendar::days_to_date(n))),
            None => None,
        };
        out.push(x);
        i = i + 1;
    }
    out
}

/// Export date-time rows through the millisecond decoder; a row outside the
/// encodable range stops the export with an overflow error.
fn encode_datetimes(rows: &Vec<Option<i64>>) -> (r: Result<
    Vec<Option<ExAnyValue>>,
    ExplorerError,
>)
    ensures
        all_ms_in_range(rows@) <==> r matches Ok(_),
        r matches Ok(out) ==> enc_datetimes(rows@, out@),
        r matches Err(e) ==> e == ExplorerError::ConversionOverflow,
{
    let mut out: Vec<Option<ExAnyValue>> = Vec::new();
    let mut i: usize = 0;
    while i < rows.len()
        invariant
            i <= rows.len(),
            out@.len() == i as int,
            forall|j: int|
                #![trigger rows@[j]]
                0 <= j < i as int ==> (rows@[j] matches Some(ms) ==> ms_in_range(ms as int)),
            forall|j: int|
                #![trigger out@[j]]
                0 <= j < i as int ==> out@[j] == (match rows@[j] {
                    Some(ms) => Some(ExAnyValue::Datetime(datetime_of_millis(ms as int))),
                    None => None::<ExAnyValue>,
                }),
        decreases rows@.len() - i,
    {
        let x: Option<ExAnyValue> = match rows[i] {
            Some(ms) => {
                if ms < -185542587187200000 || ms > 185542587187199999 {
                    return Err(ExplorerError::ConversionOverflow);
                }
                Some(ExAnyValue::Datetime(crate::datetime::millis_to_datetime(ms)))
            },
            None => None,
        };
        out.push(x);
        i = i + 1;
    }
    Ok(out)
}

/// Export nested list rows, copying both levels and keeping both levels of
/// null markers.
fn encode_lists(rows: &Vec<Option<Vec<Option<u32>>>>) -> (out: Vec<Option<Vec<Option<u32>>>>)
    ensures
        out@.len() == rows@.len(),
        forall|j: int|
            #![trigger out@[j]]
            0 <= j < rows@.len() ==> match (out@[j], rows@[j]) {
                (Some(a), Some(b)) => a@ == b@,
                (None, None) => true,
                _ => false,
            },
{
    let mut out: Vec<Option<Vec<Option<u32>>>> = Vec::new();
    let mut i: usize = 0;
    while i < rows.len()
        invariant
            i <= rows.len(),
            out@.len() == i as int,
            forall|j: int|
                #![trigger out@[j]]
                0 <= j < i as int ==> match (out@[j], rows@[j]) {
                    (Some(a), Some(b)) => a@ == b@,
                    (None, None) => true,
                    _ => false,
                },
        decreases rows@.len() - i,
    {
        let x: Option<Vec<Option<u32>>> = match rows[i].as_ref() {
            Some(inner) => {
                let mut copy: Vec<Option<u32>> = Vec::new();
                let mut k: usize = 0;
                while k < inner.len()
                    invariant
                        k <= inner.len(),
                        copy@.len() == k as int,
                        forall|t: int| #![trigger copy@[t]] 0 <= t < k as int ==> copy@[t]
                            == inner@[t],
                    decreases inner@.len() - k,
                {
                    copy.push(inner[k]);
                    k = k + 1;
                }
                proof {
                    assert(copy@ =~= inner@);
                }
                Some(copy)
            },
            None => None,
        };
        out.push(x);
        i = i + 1;
    }
    out
}

/// Materialize a whole column for the boundary: one entry per row, in row
/// order, each `absent` or `present(value)`, with temporal rows routed
/// through the codec. A column whose declared element type is outside the
/// closed set is reported as an unsupported-dtype error; a date-time row
/// outside the encodable range as an overflow. Errors are values: the export
/// never panics and leaves the column untouched.
pub fn encode_series(s: &Series) -> (r: Result<EncodedSeries, ExplorerError>)
    ensures
        dtype_of(*s) == DType::Other <==> r == Err::<EncodedSeries, ExplorerError>(
            ExplorerError::UnsupportedDtype,
        ),
        (dtype_of(*s) == DType::DatetimeMs && !all_ms_in_range(datetime_ms_rows(*s))) <==> r
            == Err::<EncodedSeries, ExplorerError>(ExplorerError::ConversionOverflow),
        r matches Ok(enc) ==> encodes(*s, enc),
        dtype_of(*s) != DType::Other && (dtype_of(*s) == DType::DatetimeMs
            ==> all_ms_in_range(datetime_ms_rows(*s))) ==> r matches Ok(_),
{
    match series_dtype(s) {
        DType::Boolean => Ok(EncodedSeries::Scalars(encode_bools(&series_bool_rows(s)))),
        DType::Utf8 => Ok(EncodedSeries::Scalars(encode_strs(&series_str_rows(s)))),
        DType::Int32 => Ok(EncodedSeries::Scalars(encode_i32s(&series_i32_rows(s)))),
        DType::Int64 => Ok(EncodedSeries::Scalars(encode_i64s(&series_i64_rows(s)))),
        DType::UInt32 => Ok(EncodedSeries::Scalars(encode_u32s(&series_u32_rows(s)))),
        DType::Float64 => Ok(EncodedSeries::Scalars(encode_f64s(&series_f64_bits_rows(s)))),
        DType::Date => Ok(EncodedSeries::Scalars(encode_dates(&series_date_rows(s)))),
        DType::DatetimeMs => match encode_datetimes(&series_datetime_ms_rows(s)) {
            Ok(out) => Ok(EncodedSeries::Scalars(out)),
            Err(e) => Err(e),
        },
        DType::ListUInt32 => Ok(
            EncodedSeries::UInt32Lists(encode_lists(&series_list_u32_rows(s))),
        ),
        DType::Other => Err(ExplorerError::UnsupportedDtype),
    }
}

} // verus!
