use sis_poller::{parse_timestamp, StationError};

#[test]
fn golden_vector() {
    assert_eq!(parse_timestamp("2023-05-30 09:29"), Ok(1685438940));
}

#[test]
fn epoch_start() {
    assert_eq!(parse_timestamp("1970-01-01 00:00"), Ok(0));
}

#[test]
fn before_epoch_is_negative() {
    assert_eq!(parse_timestamp("1969-12-31 23:59"), Ok(-60));
}

#[test]
fn single_digit_fields() {
    assert_eq!(parse_timestamp("2023-5-3 9:05"), Ok(1683104700));
    assert_eq!(parse_timestamp("2023-5-3 9:5"), Ok(1683104700));
}

#[test]
fn leap_day() {
    assert_eq!(parse_timestamp("2024-02-29 00:00"), Ok(1709164800));
    assert_eq!(parse_timestamp("2000-03-01 00:00"), Ok(951868800));
    assert_eq!(parse_timestamp("2024-12-31 00:00"), Ok(1735603200));
}

#[test]
fn month_thirteen_is_malformed() {
    assert_eq!(parse_timestamp("2023-13-01 00:00"), Err(StationError::MalformedTimestamp));
}

#[test]
fn free_text_is_malformed() {
    assert_eq!(parse_timestamp("not-a-date"), Err(StationError::MalformedTimestamp));
    assert_eq!(parse_timestamp(""), Err(StationError::MalformedTimestamp));
}

#[test]
fn impossible_dates_are_malformed() {
    assert_eq!(parse_timestamp("2023-02-29 00:00"), Err(StationError::MalformedTimestamp));
    assert_eq!(parse_timestamp("2023-04-31 00:00"), Err(StationError::MalformedTimestamp));
    assert_eq!(parse_timestamp("2023-05-30 24:00"), Err(StationError::MalformedTimestamp));
    assert_eq!(parse_timestamp("2023-05-30 09:60"), Err(StationError::MalformedTimestamp));
    assert_eq!(parse_timestamp("2023-00-10 09:00"), Err(StationError::MalformedTimestamp));
    assert_eq!(parse_timestamp("2023-05-00 09:00"), Err(StationError::MalformedTimestamp));
}

#[test]
fn shape_must_be_exact() {
    assert_eq!(parse_timestamp("2023-05-30 09:29 "), Err(StationError::MalformedTimestamp));
    assert_eq!(parse_timestamp(" 2023-05-30 09:29"), Err(StationError::MalformedTimestamp));
    assert_eq!(parse_timestamp("2023-05-30 09:29:00"), Err(StationError::MalformedTimestamp));
    assert_eq!(parse_timestamp("23-05-30 09:29"), Err(StationError::MalformedTimestamp));
    assert_eq!(parse_timestamp("2023-005-30 09:29"), Err(StationError::MalformedTimestamp));
    assert_eq!(parse_timestamp("2023/05/30 09:29"), Err(StationError::MalformedTimestamp));
    assert_eq!(parse_timestamp("2023-05-30T09:29"), Err(StationError::MalformedTimestamp));
}
