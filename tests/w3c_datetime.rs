use sitemaps::w3c_datetime::{CalendarDate, DateTimeParseError, Precision, W3CDateTime};

#[test]
fn test_w3c_date_only() -> Result<(), DateTimeParseError> {
    let date_string = "2024-02-27";
    let result = W3CDateTime::parse(date_string)?;

    assert_eq!(date_string, result.to_string());

    Ok(())
}

#[test]
fn test_w3c_midnight_utc() -> Result<(), DateTimeParseError> {
    let date_string = "2024-02-27T00:00:00Z";
    let result = W3CDateTime::parse(date_string)?;
    let expected = "2024-02-27T00:00:00Z";

    assert_eq!(expected, result.to_string());

    Ok(())
}

#[test]
fn date_fields_are_read() {
    let v = W3CDateTime::new("2024-02-27").unwrap();
    assert_eq!(v, W3CDateTime::Date(CalendarDate { year: 2024, month: 2, day: 27 }));
}

#[test]
fn dates_round_trip() {
    for d in ["2000-02-29", "0001-01-01", "9999-12-31", "1999-07-04"] {
        assert_eq!(W3CDateTime::parse(d).unwrap().to_string(), d);
    }
}

#[test]
fn milliseconds_are_kept() {
    let v = W3CDateTime::parse("2024-02-27T00:00:00.123Z").unwrap();
    match v {
        W3CDateTime::DateTime(t, p) => {
            assert_eq!(p, Precision::Milliseconds);
            assert_eq!(t.nanosecond, 123_000_000);
        }
        W3CDateTime::Date(_) => panic!("expected an instant"),
    }
    assert_eq!(v.to_string(), "2024-02-27T00:00:00.123Z");
}

#[test]
fn whole_seconds_with_offset() {
    let v = W3CDateTime::parse("2024-02-27T10:30:05+02:00").unwrap();
    match v {
        W3CDateTime::DateTime(t, p) => {
            assert_eq!(p, Precision::WholeSeconds);
            assert_eq!(t.offset_seconds, 7200);
            assert_eq!((t.hour, t.minute, t.second), (10, 30, 5));
        }
        W3CDateTime::Date(_) => panic!("expected an instant"),
    }
    assert_eq!(v.to_string(), "2024-02-27T10:30:05+02:00");
}

#[test]
fn short_fraction_is_shown_in_milliseconds() {
    let v = W3CDateTime::parse("2024-02-27T00:00:00.5Z").unwrap();
    assert_eq!(v.to_string(), "2024-02-27T00:00:00.500Z");
}

#[test]
fn invalid_inputs_are_rejected() {
    assert_eq!(W3CDateTime::parse("2024-13-01"), Err(DateTimeParseError));
    assert_eq!(W3CDateTime::parse("not-a-date"), Err(DateTimeParseError));
    assert_eq!(W3CDateTime::parse("2024-02-27T00:00:00"), Err(DateTimeParseError));
    assert_eq!(W3CDateTime::parse("2024-02-30"), Err(DateTimeParseError));
    assert_eq!(W3CDateTime::parse("2024-02-32"), Err(DateTimeParseError));
    assert_eq!(W3CDateTime::parse("+2024-1-01"), Err(DateTimeParseError));
    assert_eq!(W3CDateTime::parse(""), Err(DateTimeParseError));
}
