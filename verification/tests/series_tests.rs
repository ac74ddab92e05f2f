use explorer_datatypes::calendar::date_to_days;
use explorer_datatypes::series::encode_series;
use explorer_datatypes::{EncodedSeries, ExAnyValue, ExDate, ExDateTime, ExplorerError};
use polars::prelude::{
    DataType, IntoSeries, ListChunked, NamedFrom, Series, TimeUnit,
};

fn scalars(r: Result<EncodedSeries, ExplorerError>) -> Vec<Option<ExAnyValue>> {
    match r {
        Ok(EncodedSeries::Scalars(v)) => v,
        other => panic!("expected scalar rows, got {:?}", other),
    }
}

#[test]
fn uint32_column_exports_in_order_with_nulls() {
    let s = Series::new("c".into(), &[Some(1u32), None, Some(3u32)]);
    let out = scalars(encode_series(&s));
    assert_eq!(
        out,
        vec![
            Some(ExAnyValue::UInt32(1)),
            None,
            Some(ExAnyValue::UInt32(3)),
        ]
    );
}

#[test]
fn bool_column_exports_with_nulls() {
    let s = Series::new("b".into(), &[Some(true), None, Some(false)]);
    let out = scalars(encode_series(&s));
    assert_eq!(
        out,
        vec![
            Some(ExAnyValue::Boolean(true)),
            None,
            Some(ExAnyValue::Boolean(false)),
        ]
    );
}

#[test]
fn int_columns_export_with_nulls() {
    let s32 = Series::new("i".into(), &[Some(-5i32), None]);
    assert_eq!(
        scalars(encode_series(&s32)),
        vec![Some(ExAnyValue::Int32(-5)), None]
    );
    let s64 = Series::new("j".into(), &[None, Some(1i64 << 40)]);
    assert_eq!(
        scalars(encode_series(&s64)),
        vec![None, Some(ExAnyValue::Int64(1 << 40))]
    );
}

#[test]
fn string_column_exports_owned_copies() {
    let s = Series::new("s".into(), &[Some("abc"), None, Some("")]);
    let out = scalars(encode_series(&s));
    assert_eq!(
        out,
        vec![
            Some(ExAnyValue::Utf8("abc".to_string())),
            None,
            Some(ExAnyValue::Utf8(String::new())),
        ]
    );
}

#[test]
fn float_column_exports_bit_patterns() {
    let s = Series::new("f".into(), &[Some(1.5f64), None, Some(-0.0f64)]);
    let out = scalars(encode_series(&s));
    assert_eq!(
        out,
        vec![
            Some(ExAnyValue::Float64(1.5f64.to_bits())),
            None,
            Some(ExAnyValue::Float64((-0.0f64).to_bits())),
        ]
    );
}

#[test]
fn date_column_exports_through_codec() {
    let s = Series::new("d".into(), &[Some(0i32), None, Some(-1i32), Some(11016i32)])
        .cast(&DataType::Date)
        .unwrap();
    let out = scalars(encode_series(&s));
    assert_eq!(
        out,
        vec![
            Some(ExAnyValue::Date(ExDate { day: 1, month: 1, year: 1970 })),
            None,
            Some(ExAnyValue::Date(ExDate { day: 31, month: 12, year: 1969 })),
            Some(ExAnyValue::Date(ExDate { day: 29, month: 2, year: 2000 })),
        ]
    );
}

#[test]
fn datetime_column_exports_through_codec() {
    let s = Series::new("t".into(), &[Some(0i64), Some(-500i64), None])
        .cast(&DataType::Datetime(TimeUnit::Milliseconds, None))
        .unwrap();
    let out = scalars(encode_series(&s));
    let expect_epoch = ExDateTime {
        day: 1,
        month: 1,
        year: 1970,
        hour: 0,
        minute: 0,
        second: 0,
        microsecond: (0, 3),
    };
    let expect_before = ExDateTime {
        day: 31,
        month: 12,
        year: 1969,
        hour: 23,
        minute: 59,
        second: 59,
        microsecond: (500000, 3),
    };
    assert_eq!(
        out,
        vec![
            Some(ExAnyValue::Datetime(expect_epoch)),
            Some(ExAnyValue::Datetime(expect_before)),
            None,
        ]
    );
}

#[test]
fn datetime_column_out_of_range_reports_overflow() {
    let s = Series::new("t".into(), &[Some(i64::MAX)])
        .cast(&DataType::Datetime(TimeUnit::Milliseconds, None))
        .unwrap();
    assert_eq!(encode_series(&s), Err(ExplorerError::ConversionOverflow));
}

#[test]
fn list_of_uint32_column_exports_both_null_levels() {
    let inner_a = Series::new("".into(), &[Some(1u32), None, Some(3u32)]);
    let inner_b = Series::new("".into(), &[Some(7u32)]);
    let ca = ListChunked::from_iter(vec![Some(inner_a), None, Some(inner_b)]);
    let s = ca.into_series();
    assert_eq!(s.dtype(), &DataType::List(Box::new(DataType::UInt32)));
    let out = match encode_series(&s) {
        Ok(EncodedSeries::UInt32Lists(v)) => v,
        other => panic!("expected list rows, got {:?}", other),
    };
    assert_eq!(
        out,
        vec![
            Some(vec![Some(1u32), None, Some(3u32)]),
            None,
            Some(vec![Some(7u32)]),
        ]
    );
}

#[test]
fn unsupported_dtype_is_an_error_not_an_abort() {
    let s = Series::new("f".into(), &[Some(1.0f32), None]);
    assert_eq!(encode_series(&s), Err(ExplorerError::UnsupportedDtype));
    // The column is untouched by the failed export.
    assert_eq!(s.len(), 2);
    assert_eq!(s.dtype(), &DataType::Float32);
    let vals: Vec<Option<f32>> = s.f32().unwrap().iter().collect();
    assert_eq!(vals, vec![Some(1.0f32), None]);
}

#[test]
fn unsupported_list_inner_dtype_is_an_error() {
    let inner = Series::new("".into(), &[Some(1i64)]);
    let ca = ListChunked::from_iter(vec![Some(inner)]);
    let s = ca.into_series();
    assert_eq!(encode_series(&s), Err(ExplorerError::UnsupportedDtype));
}

#[test]
fn non_millisecond_datetime_unit_is_unsupported() {
    let s = Series::new("t".into(), &[Some(0i64)])
        .cast(&DataType::Datetime(TimeUnit::Nanoseconds, None))
        .unwrap();
    assert_eq!(encode_series(&s), Err(ExplorerError::UnsupportedDtype));
}

#[test]
fn date_column_round_trips_through_import() {
    let days: Vec<Option<i32>> = vec![Some(0), None, Some(-1), Some(-719468), Some(11016)];
    let s = Series::new("d".into(), &days).cast(&DataType::Date).unwrap();
    let out = scalars(encode_series(&s));
    assert_eq!(out.len(), days.len());
    for (orig, row) in days.iter().zip(out.iter()) {
        match (orig, row) {
            (Some(n), Some(ExAnyValue::Date(d))) => {
                assert_eq!(date_to_days(d), Ok(*n));
            }
            (None, None) => {}
            other => panic!("rows do not correspond: {:?}", other),
        }
    }
}
