use explorer_datatypes::series::{any_value_to_ex, ex_to_any_value};
use explorer_datatypes::value::{ex_to_scalar, scalar_to_ex};
use explorer_datatypes::{EngineScalar, ExAnyValue, ExDate, ExDateTime, ExplorerError};
use polars::prelude::{AnyValue, TimeUnit};

#[test]
fn plain_scalars_pass_through_unchanged() {
    assert_eq!(
        ex_to_scalar(ExAnyValue::Boolean(true)),
        Ok(EngineScalar::Boolean(true))
    );
    assert_eq!(
        ex_to_scalar(ExAnyValue::Utf8("hi".to_string())),
        Ok(EngineScalar::Utf8("hi".to_string()))
    );
    assert_eq!(ex_to_scalar(ExAnyValue::Int32(-7)), Ok(EngineScalar::Int32(-7)));
    assert_eq!(ex_to_scalar(ExAnyValue::Int64(1 << 40)), Ok(EngineScalar::Int64(1 << 40)));
    assert_eq!(ex_to_scalar(ExAnyValue::UInt32(9)), Ok(EngineScalar::UInt32(9)));
    let bits = 1.5f64.to_bits();
    assert_eq!(
        ex_to_scalar(ExAnyValue::Float64(bits)),
        Ok(EngineScalar::Float64Bits(bits))
    );
}

#[test]
fn date_scalar_converts_through_codec() {
    let d = ExDate { day: 29, month: 2, year: 2000 };
    assert_eq!(ex_to_scalar(ExAnyValue::Date(d)), Ok(EngineScalar::DateDays(11016)));
    assert_eq!(
        scalar_to_ex(EngineScalar::DateDays(11016)),
        Ok(ExAnyValue::Date(d))
    );
}

#[test]
fn datetime_scalar_converts_through_codec() {
    let dt = ExDateTime {
        day: 31,
        month: 12,
        year: 1969,
        hour: 23,
        minute: 59,
        second: 59,
        microsecond: (500000, 3),
    };
    assert_eq!(
        ex_to_scalar(ExAnyValue::Datetime(dt)),
        Ok(EngineScalar::DatetimeMs(-500))
    );
    assert_eq!(
        scalar_to_ex(EngineScalar::DatetimeMs(-500)),
        Ok(ExAnyValue::Datetime(dt))
    );
}

#[test]
fn scalar_bridge_rejects_invalid_calendar_values() {
    let bad_date = ExDate { day: 32, month: 1, year: 1970 };
    assert_eq!(
        ex_to_scalar(ExAnyValue::Date(bad_date)),
        Err(ExplorerError::InvalidDate)
    );
    let bad_dt = ExDateTime {
        day: 1,
        month: 1,
        year: 1970,
        hour: 25,
        minute: 0,
        second: 0,
        microsecond: (0, 3),
    };
    assert_eq!(
        ex_to_scalar(ExAnyValue::Datetime(bad_dt)),
        Err(ExplorerError::InvalidDate)
    );
}

#[test]
fn scalar_bridge_rejects_out_of_range_millis() {
    assert_eq!(
        scalar_to_ex(EngineScalar::DatetimeMs(i64::MAX)),
        Err(ExplorerError::ConversionOverflow)
    );
    assert_eq!(
        scalar_to_ex(EngineScalar::DatetimeMs(i64::MIN)),
        Err(ExplorerError::ConversionOverflow)
    );
}

#[test]
fn any_value_export_and_import() {
    assert_eq!(
        ex_to_any_value(ExAnyValue::Int32(5)),
        Ok(AnyValue::Int32(5))
    );
    assert_eq!(
        ex_to_any_value(ExAnyValue::Utf8("owned".to_string())),
        Ok(AnyValue::StringOwned("owned".into()))
    );
    assert_eq!(
        ex_to_any_value(ExAnyValue::Date(ExDate { day: 1, month: 1, year: 1970 })),
        Ok(AnyValue::Date(0))
    );
    assert_eq!(
        ex_to_any_value(ExAnyValue::Datetime(ExDateTime {
            day: 1,
            month: 1,
            year: 1970,
            hour: 0,
            minute: 0,
            second: 0,
            microsecond: (123000, 3),
        })),
        Ok(AnyValue::Datetime(123, TimeUnit::Milliseconds, None))
    );
    let bits = (-2.5f64).to_bits();
    assert_eq!(
        ex_to_any_value(ExAnyValue::Float64(bits)),
        Ok(AnyValue::Float64(-2.5))
    );
}

#[test]
fn any_value_import_maps_each_supported_variant() {
    assert_eq!(
        any_value_to_ex(AnyValue::Boolean(false)),
        Ok(ExAnyValue::Boolean(false))
    );
    assert_eq!(
        any_value_to_ex(AnyValue::String("s")),
        Ok(ExAnyValue::Utf8("s".to_string()))
    );
    assert_eq!(
        any_value_to_ex(AnyValue::Float64(0.25)),
        Ok(ExAnyValue::Float64(0.25f64.to_bits()))
    );
    assert_eq!(
        any_value_to_ex(AnyValue::Date(-1)),
        Ok(ExAnyValue::Date(ExDate { day: 31, month: 12, year: 1969 }))
    );
    assert_eq!(
        any_value_to_ex(AnyValue::Datetime(-500, TimeUnit::Milliseconds, None)),
        Ok(ExAnyValue::Datetime(ExDateTime {
            day: 31,
            month: 12,
            year: 1969,
            hour: 23,
            minute: 59,
            second: 59,
            microsecond: (500000, 3),
        }))
    );
}

#[test]
fn any_value_import_rejects_unsupported_variants() {
    assert_eq!(
        any_value_to_ex(AnyValue::Int8(3)),
        Err(ExplorerError::UnsupportedDtype)
    );
    assert_eq!(
        any_value_to_ex(AnyValue::UInt64(3)),
        Err(ExplorerError::UnsupportedDtype)
    );
    assert_eq!(
        any_value_to_ex(AnyValue::Null),
        Err(ExplorerError::UnsupportedDtype)
    );
    assert_eq!(
        any_value_to_ex(AnyValue::Datetime(i64::MAX, TimeUnit::Milliseconds, None)),
        Err(ExplorerError::ConversionOverflow)
    );
}

#[test]
fn engine_value_round_trips_each_supported_shape() {
    let values: Vec<ExAnyValue> = vec![
        ExAnyValue::Boolean(true),
        ExAnyValue::Utf8("round".to_string()),
        ExAnyValue::Int32(-3),
        ExAnyValue::Int64(1 << 50),
        ExAnyValue::UInt32(17),
        ExAnyValue::Float64(f64::NAN.to_bits()),
        ExAnyValue::Date(ExDate { day: 31, month: 12, year: 1969 }),
        ExAnyValue::Datetime(ExDateTime {
            day: 31,
            month: 12,
            year: 1969,
            hour: 23,
            minute: 59,
            second: 59,
            microsecond: (500000, 3),
        }),
    ];
    for v in values {
        let av = ex_to_any_value(v.clone()).unwrap();
        assert_eq!(any_value_to_ex(av), Ok(v));
    }
}
