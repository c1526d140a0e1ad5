use arrow_odbc::{
    bit_to_bool, bits_to_bools, dates_to_days, days_since_epoch, decimal_from_text,
    decimals_from_texts, timestamp_since_epoch, timestamps_to_epoch, Date, DecimalError,
    MappingError, TimeUnit, Timestamp,
};

fn date(year: i16, month: u16, day: u16) -> Option<i32> {
    days_since_epoch(Date { year, month, day })
}

fn timestamp(year: i16, month: u16, day: u16, hour: u16, minute: u16, second: u16, fraction: u32)
    -> Timestamp {
    Timestamp { year, month, day, hour, minute, second, fraction }
}

#[test]
fn days_since_the_epoch() {
    assert_eq!(date(1970, 1, 1), Some(0));
    assert_eq!(date(1970, 1, 2), Some(1));
    assert_eq!(date(1969, 12, 31), Some(-1));
    assert_eq!(date(2000, 2, 29), Some(11016));
    assert_eq!(date(2000, 3, 1), Some(11017));
    assert_eq!(date(2021, 4, 9), Some(18726));
    assert_eq!(date(2024, 12, 31), Some(20088));
    assert_eq!(date(1900, 3, 1), Some(-25508));
    assert_eq!(date(1600, 1, 1), Some(-135140));
    assert_eq!(date(9999, 12, 31), Some(2932896));
    assert_eq!(date(1, 1, 1), Some(-719162));
    assert_eq!(date(0, 1, 1), Some(-719528));
    assert_eq!(date(-1, 1, 1), Some(-719893));
}

#[test]
fn days_that_the_calendar_does_not_have() {
    assert_eq!(date(2021, 0, 1), None);
    assert_eq!(date(2021, 13, 1), None);
    assert_eq!(date(2021, 1, 0), None);
    assert_eq!(date(2021, 1, 32), None);
    assert_eq!(date(2021, 4, 31), None);
    assert_eq!(date(2021, 2, 29), None);
    assert_eq!(date(1900, 2, 29), None);
    assert_eq!(date(2100, 2, 29), None);
    assert!(date(2024, 2, 29).is_some());
    assert!(date(2000, 2, 29).is_some());
    assert!(date(2021, 12, 31).is_some());
}

#[test]
fn consecutive_days_are_one_apart() {
    let mut expected = date(1995, 1, 1).unwrap();
    for year in 1995..2005 {
        for month in 1..13 {
            for day in 1..32 {
                if let Some(days) = date(year, month, day) {
                    assert_eq!(days, expected);
                    expected += 1;
                }
            }
        }
    }
    assert_eq!(expected, date(2005, 1, 1).unwrap());
}

#[test]
fn timestamps_in_every_unit() {
    let ts = timestamp(2021, 4, 9, 18, 57, 50, 123_456_789);
    assert_eq!(timestamp_since_epoch(ts, TimeUnit::Second), Some(1_617_994_670));
    assert_eq!(timestamp_since_epoch(ts, TimeUnit::Millisecond), Some(1_617_994_670_123));
    assert_eq!(timestamp_since_epoch(ts, TimeUnit::Microsecond), Some(1_617_994_670_123_456));
    assert_eq!(timestamp_since_epoch(ts, TimeUnit::Nanosecond), Some(1_617_994_670_123_456_789));
    let epoch = timestamp(1970, 1, 1, 0, 0, 0, 0);
    assert_eq!(timestamp_since_epoch(epoch, TimeUnit::Nanosecond), Some(0));
}

#[test]
fn timestamps_before_the_epoch() {
    let ts = timestamp(1969, 12, 31, 23, 59, 59, 0);
    assert_eq!(timestamp_since_epoch(ts, TimeUnit::Second), Some(-1));
    assert_eq!(timestamp_since_epoch(ts, TimeUnit::Millisecond), Some(-1000));
    let ts = timestamp(1969, 12, 31, 23, 59, 59, 250_000_000);
    assert_eq!(timestamp_since_epoch(ts, TimeUnit::Millisecond), Some(-750));
    assert_eq!(timestamp_since_epoch(ts, TimeUnit::Second), Some(-1));
}

#[test]
fn timestamps_beyond_64_bits_of_nanoseconds() {
    let last = timestamp(2262, 4, 11, 23, 47, 16, 854_775_807);
    assert_eq!(timestamp_since_epoch(last, TimeUnit::Nanosecond), Some(i64::MAX));
    let beyond = timestamp(2262, 4, 11, 23, 47, 16, 854_775_808);
    assert_eq!(timestamp_since_epoch(beyond, TimeUnit::Nanosecond), None);
    assert_eq!(timestamp_since_epoch(beyond, TimeUnit::Microsecond), Some(9_223_372_036_854_775));
    let far = timestamp(9999, 12, 31, 23, 59, 59, 0);
    assert_eq!(timestamp_since_epoch(far, TimeUnit::Nanosecond), None);
    assert_eq!(timestamp_since_epoch(far, TimeUnit::Second), Some(253_402_300_799));
}

#[test]
fn timestamps_that_the_clock_does_not_have() {
    for ts in [
        timestamp(2021, 2, 30, 0, 0, 0, 0),
        timestamp(2021, 1, 1, 24, 0, 0, 0),
        timestamp(2021, 1, 1, 0, 60, 0, 0),
        timestamp(2021, 1, 1, 0, 0, 60, 0),
        timestamp(2021, 1, 1, 0, 0, 0, 1_000_000_000),
    ] {
        assert_eq!(timestamp_since_epoch(ts, TimeUnit::Second), None);
    }
}

#[test]
fn bits() {
    assert!(!bit_to_bool(0));
    assert!(bit_to_bool(1));
    assert!(bit_to_bool(255));
}

#[test]
fn decimals_at_their_scale() {
    assert_eq!(decimal_from_text(b"123.45", 10, 2), Ok(12345));
    assert_eq!(decimal_from_text(b"-123.45", 10, 2), Ok(-12345));
    assert_eq!(decimal_from_text(b"+123.45", 10, 2), Ok(12345));
    assert_eq!(decimal_from_text(b"123.4", 10, 2), Ok(12340));
    assert_eq!(decimal_from_text(b"123", 10, 2), Ok(12300));
    assert_eq!(decimal_from_text(b"123.", 10, 2), Ok(12300));
    assert_eq!(decimal_from_text(b".5", 10, 2), Ok(50));
    assert_eq!(decimal_from_text(b"-.05", 10, 2), Ok(-5));
    assert_eq!(decimal_from_text(b"0", 10, 2), Ok(0));
    assert_eq!(decimal_from_text(b"-0.00", 10, 2), Ok(0));
    assert_eq!(decimal_from_text(b"0007.10", 10, 2), Ok(710));
    assert_eq!(decimal_from_text(b"42", 2, 0), Ok(42));
}

#[test]
fn decimals_up_to_the_precision() {
    assert_eq!(decimal_from_text(b"99999999.99", 10, 2), Ok(9_999_999_999));
    assert_eq!(decimal_from_text(b"-99999999.99", 10, 2), Ok(-9_999_999_999));
    assert_eq!(decimal_from_text(b"100000000.00", 10, 2), Err(DecimalError::OutOfRange));
    assert_eq!(decimal_from_text(b"-100000000", 10, 2), Err(DecimalError::OutOfRange));
    assert_eq!(decimal_from_text(b"1", 0, 0), Err(DecimalError::OutOfRange));
    assert_eq!(decimal_from_text(b"0", 0, 0), Ok(0));
    let most = "9".repeat(38);
    assert_eq!(decimal_from_text(most.as_bytes(), 38, 0), Ok(10i128.pow(38) - 1));
    let more = format!("1{}", "0".repeat(38));
    assert_eq!(decimal_from_text(more.as_bytes(), 38, 0), Err(DecimalError::OutOfRange));
    let long = "9".repeat(60);
    assert_eq!(decimal_from_text(long.as_bytes(), 38, 0), Err(DecimalError::OutOfRange));
    let zeros = format!("{}7", "0".repeat(60));
    assert_eq!(decimal_from_text(zeros.as_bytes(), 38, 0), Ok(7));
}

#[test]
fn decimals_that_the_type_does_not_hold() {
    assert_eq!(decimal_from_text(b"1.234", 10, 2), Err(DecimalError::OutOfRange));
    assert_eq!(decimal_from_text(b"1.230", 10, 2), Err(DecimalError::OutOfRange));
    assert_eq!(decimal_from_text(b"1", 10, -1), Err(DecimalError::OutOfRange));
    assert_eq!(decimal_from_text(b"1", 39, 0), Err(DecimalError::OutOfRange));
    assert_eq!(decimal_from_text(b"1", 3, 3), Err(DecimalError::OutOfRange));
    assert_eq!(decimal_from_text(b"0.999", 3, 3), Ok(999));
}

#[test]
fn texts_that_are_no_decimals() {
    for text in [
        &b""[..], b"-", b"+", b".", b"-.", b"1.2.3", b"12a", b"a12", b"1 2", b" 1", b"1e5", b"--1",
        b"1-", b"1,5", b"\xff",
    ] {
        assert_eq!(decimal_from_text(text, 10, 2), Err(DecimalError::Malformed));
        assert_eq!(decimal_from_text(text, 39, -1), Err(DecimalError::Malformed));
    }
}

#[test]
fn scalar_values_with_a_null_among_them() {
    // What a column of each kind delivers for three rows, the second of which is NULL.
    let dates =
        vec![Some(Date { year: 2021, month: 4, day: 9 }), None, Some(Date { year: 1970, month: 1, day: 1 })];
    assert_eq!(dates_to_days(&dates), Ok(vec![Some(18726), None, Some(0)]));

    let timestamps = vec![
        Some(timestamp(2021, 4, 9, 18, 57, 50, 120_000_000)),
        None,
        Some(timestamp(1970, 1, 1, 0, 0, 1, 0)),
    ];
    assert_eq!(
        timestamps_to_epoch(&timestamps, TimeUnit::Millisecond),
        Ok(vec![Some(1_617_994_670_120), None, Some(1000)])
    );

    let decimals = vec![Some(b"12345678.90".to_vec()), None, Some(b"-0.01".to_vec())];
    assert_eq!(
        decimals_from_texts(&decimals, 10, 2),
        Ok(vec![Some(1_234_567_890), None, Some(-1)])
    );

    let bits = vec![Some(1u8), None, Some(0u8)];
    assert_eq!(bits_to_bools(&bits), vec![Some(true), None, Some(false)]);
}

#[test]
fn columns_without_rows() {
    assert_eq!(dates_to_days(&Vec::new()), Ok(Vec::new()));
    assert_eq!(timestamps_to_epoch(&Vec::new(), TimeUnit::Second), Ok(Vec::new()));
    assert_eq!(decimals_from_texts(&Vec::new(), 10, 2), Ok(Vec::new()));
    assert!(bits_to_bools(&Vec::new()).is_empty());
}

#[test]
fn first_value_without_a_counterpart_ends_the_column() {
    let dates = vec![
        Some(Date { year: 2021, month: 4, day: 9 }),
        Some(Date { year: 2021, month: 2, day: 30 }),
        Some(Date { year: 2021, month: 13, day: 1 }),
    ];
    assert_eq!(dates_to_days(&dates), Err(MappingError::MalformedValue { row: 1 }));

    let timestamps = vec![
        None,
        Some(timestamp(2300, 1, 1, 0, 0, 0, 0)),
        Some(timestamp(2021, 1, 1, 25, 0, 0, 0)),
    ];
    assert_eq!(
        timestamps_to_epoch(&timestamps, TimeUnit::Nanosecond),
        Err(MappingError::ValueOutOfRange { row: 1 })
    );
    assert_eq!(
        timestamps_to_epoch(&timestamps, TimeUnit::Microsecond),
        Err(MappingError::MalformedValue { row: 2 })
    );

    let decimals = vec![Some(b"1.5".to_vec()), Some(b"1000".to_vec()), Some(b"x".to_vec())];
    assert_eq!(decimals_from_texts(&decimals, 4, 1), Err(MappingError::ValueOutOfRange { row: 1 }));
    assert_eq!(decimals_from_texts(&decimals, 5, 1), Err(MappingError::MalformedValue { row: 2 }));
    assert_eq!(decimals_from_texts(&decimals[..1].to_vec(), 5, 1), Ok(vec![Some(15)]));
}
