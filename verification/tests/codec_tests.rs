use explorer_datatypes::calendar::{date_to_days, days_to_date};
use explorer_datatypes::datetime::{datetime_to_millis, millis_to_datetime};
use explorer_datatypes::{ExDate, ExDateTime, ExplorerError};

fn dt(
    year: i32,
    month: u32,
    day: u32,
    hour: u32,
    minute: u32,
    second: u32,
    micro: u32,
) -> ExDateTime {
    ExDateTime { day, month, year, hour, minute, second, microsecond: (micro, 3) }
}

#[test]
fn epoch_millis_is_epoch_datetime() {
    let r = millis_to_datetime(0);
    assert_eq!(r, dt(1970, 1, 1, 0, 0, 0, 0));
}

#[test]
fn negative_half_second_lands_on_previous_second() {
    let r = millis_to_datetime(-500);
    assert_eq!(r.year, 1969);
    assert_eq!(r.month, 12);
    assert_eq!(r.day, 31);
    assert_eq!(r.hour, 23);
    assert_eq!(r.minute, 59);
    assert_eq!(r.second, 59);
    assert_eq!(r.microsecond, (500000, 3));
}

#[test]
fn one_millisecond_before_epoch() {
    let r = millis_to_datetime(-1);
    assert_eq!(r, dt(1969, 12, 31, 23, 59, 59, 999000));
}

#[test]
fn negative_exact_second_keeps_zero_fraction() {
    let r = millis_to_datetime(-1000);
    assert_eq!(r, dt(1969, 12, 31, 23, 59, 59, 0));
    assert_eq!(millis_to_datetime(-86400000), dt(1969, 12, 31, 0, 0, 0, 0));
}

#[test]
fn known_positive_instant() {
    let r = millis_to_datetime(1633046400123);
    assert_eq!(r, dt(2021, 10, 1, 0, 0, 0, 123000));
}

#[test]
fn millis_round_trip_representative_range() {
    let cases: Vec<i64> = vec![
        0,
        1,
        -1,
        -500,
        500,
        999,
        -999,
        1000,
        -1000,
        -1001,
        86400000,
        -86400000,
        -86400001,
        1633046400123,
        -1633046400123,
        -185542587187200000,
        185542587187199999,
    ];
    for ms in cases {
        let d = millis_to_datetime(ms);
        assert_eq!(datetime_to_millis(&d), Ok(ms));
    }
}

#[test]
fn datetime_to_millis_truncates_sub_millisecond() {
    // 999 microseconds are below one millisecond: truncated, not rounded.
    assert_eq!(datetime_to_millis(&dt(1970, 1, 1, 0, 0, 0, 999)), Ok(0));
    assert_eq!(datetime_to_millis(&dt(1969, 12, 31, 23, 59, 59, 500999)), Ok(-500));
}

#[test]
fn datetime_to_millis_rejects_invalid_fields() {
    assert_eq!(
        datetime_to_millis(&dt(1970, 1, 1, 24, 0, 0, 0)),
        Err(ExplorerError::InvalidDate)
    );
    assert_eq!(
        datetime_to_millis(&dt(1970, 2, 30, 0, 0, 0, 0)),
        Err(ExplorerError::InvalidDate)
    );
    assert_eq!(
        datetime_to_millis(&dt(1970, 1, 1, 0, 0, 0, 1000000)),
        Err(ExplorerError::InvalidDate)
    );
}

#[test]
fn epoch_day_is_epoch_date() {
    let d = days_to_date(0);
    assert_eq!(d, ExDate { day: 1, month: 1, year: 1970 });
    assert_eq!(date_to_days(&d), Ok(0));
}

#[test]
fn day_before_epoch() {
    assert_eq!(days_to_date(-1), ExDate { day: 31, month: 12, year: 1969 });
}

#[test]
fn leap_day_2000() {
    assert_eq!(days_to_date(11016), ExDate { day: 29, month: 2, year: 2000 });
    assert_eq!(date_to_days(&ExDate { day: 29, month: 2, year: 2000 }), Ok(11016));
}

#[test]
fn era_boundary_year_zero() {
    assert_eq!(days_to_date(-719468), ExDate { day: 1, month: 3, year: 0 });
}

#[test]
fn days_round_trip_representative_range() {
    let cases: Vec<i32> = vec![
        0,
        1,
        -1,
        365,
        -365,
        11016,
        -719468,
        -719469,
        2932896,
        i32::MIN,
        i32::MAX,
        i32::MIN + 1,
        i32::MAX - 1,
    ];
    for z in cases {
        let d = days_to_date(z);
        assert_eq!(date_to_days(&d), Ok(z));
    }
}

#[test]
fn date_to_days_rejects_invalid_dates() {
    assert_eq!(
        date_to_days(&ExDate { day: 1, month: 13, year: 1970 }),
        Err(ExplorerError::InvalidDate)
    );
    assert_eq!(
        date_to_days(&ExDate { day: 30, month: 2, year: 1970 }),
        Err(ExplorerError::InvalidDate)
    );
    assert_eq!(
        date_to_days(&ExDate { day: 29, month: 2, year: 2001 }),
        Err(ExplorerError::InvalidDate)
    );
    assert_eq!(
        date_to_days(&ExDate { day: 0, month: 1, year: 1970 }),
        Err(ExplorerError::InvalidDate)
    );
}

#[test]
fn date_to_days_reports_overflow() {
    assert_eq!(
        date_to_days(&ExDate { day: 1, month: 1, year: 6000000 }),
        Err(ExplorerError::ConversionOverflow)
    );
    assert_eq!(
        date_to_days(&ExDate { day: 1, month: 1, year: -6000000 }),
        Err(ExplorerError::ConversionOverflow)
    );
}

#[test]
fn error_messages_are_stable() {
    assert_eq!(
        ExplorerError::UnsupportedDtype.message(),
        "dtype not supported for conversion"
    );
    assert_eq!(ExplorerError::InvalidDate.message(), "invalid calendar value");
    assert_eq!(
        ExplorerError::ConversionOverflow.message(),
        "calendar arithmetic out of range"
    );
}
