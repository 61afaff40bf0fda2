use tomling::{Date, Datetime, Offset, Time};

#[test]
fn serde_datetime_deserialize() {
    let dt = Datetime::from_str("1979-05-27T07:32:00Z").unwrap();
    assert_eq!(
        dt,
        Datetime {
            date: Some(Date {
                year: 1979,
                month: 5,
                day: 27
            }),
            time: Some(Time {
                hour: 7,
                minute: 32,
                second: 0,
                nanosecond: 0
            }),
            offset: Some(Offset::Z)
        }
    );
}

#[test]
fn leap_year_validation() {
    // 1979 is not a leap year; 2000 is.
    assert!(Datetime::from_str("1979-02-29").is_err());
    let dt = Datetime::from_str("2000-02-29").unwrap();
    assert_eq!(
        dt.date,
        Some(Date {
            year: 2000,
            month: 2,
            day: 29
        })
    );
    // A century year not divisible by 400 is not a leap year.
    assert!(Datetime::from_str("1900-02-29").is_err());
}

#[test]
fn datetime_subtypes() {
    let full = Datetime::from_str("1979-05-27 00:32:00.999999-07:00").unwrap();
    assert_eq!(full.offset, Some(Offset::Custom { minutes: -420 }));
    assert_eq!(full.time.unwrap().nanosecond, 999_999_000);

    let local = Datetime::from_str("1979-05-27T07:32:00").unwrap();
    assert!(local.date.is_some() && local.time.is_some() && local.offset.is_none());

    let date_only = Datetime::from_str("1979-05-27").unwrap();
    assert!(date_only.date.is_some() && date_only.time.is_none() && date_only.offset.is_none());

    let time_only = Datetime::from_str("07:32:00").unwrap();
    assert!(time_only.date.is_none() && time_only.time.is_some() && time_only.offset.is_none());

    // A time alone takes no offset, and trailing characters are refused.
    assert!(Datetime::from_str("07:32:00Z").is_err());
    assert!(Datetime::from_str("1979-05-27T07:32:00Zx").is_err());
}

#[test]
fn datetime_range_validation() {
    assert!(Datetime::from_str("1979-13-01").is_err());
    assert!(Datetime::from_str("1979-00-01").is_err());
    assert!(Datetime::from_str("1979-04-31").is_err());
    assert!(Datetime::from_str("1979-05-27T24:00:00").is_err());
    assert!(Datetime::from_str("1979-05-27T07:60:00").is_err());
    // A leap second is permitted syntactically.
    assert!(Datetime::from_str("1979-05-27T07:32:60").is_ok());
    assert!(Datetime::from_str("1979-05-27T07:32:61").is_err());
    // The offset must stay within one day of UTC.
    assert!(Datetime::from_str("1979-05-27T07:32:00+24:00").is_ok());
    assert!(Datetime::from_str("1979-05-27T07:32:00+24:01").is_err());
    match Datetime::from_str("1979-13-01").unwrap_err() {
        tomling::Error::Datetime => {},
        _ => panic!(),
    }
}

#[test]
fn fractional_seconds_truncate() {
    // Digits beyond nine are truncated, never rounded.
    let dt = Datetime::from_str("07:32:00.123456789999").unwrap();
    assert_eq!(dt.time.unwrap().nanosecond, 123_456_789);
    let dt = Datetime::from_str("07:32:00.5").unwrap();
    assert_eq!(dt.time.unwrap().nanosecond, 500_000_000);
    assert!(Datetime::from_str("07:32:00.").is_err());
}

#[test]
fn offset_minutes() {
    assert_eq!(Offset::Z.as_minutes(), 0);
    assert_eq!(Offset::Custom { minutes: -420 }.as_minutes(), -420);
    let dt = Datetime::from_str("1979-05-27T07:32:00+05:30").unwrap();
    assert_eq!(dt.offset.unwrap().as_minutes(), 330);
}

#[test]
fn display_round_trip() {
    let samples = [
        "1979-05-27T07:32:00Z",
        "1979-05-27T00:32:00.999999-07:00",
        "1979-05-27",
        "00:32:00.5",
        "1979-05-27T07:32:00",
        "2000-02-29T23:59:60+23:59",
        "1979-05-27T07:32:00+00:00",
    ];
    for s in samples {
        let dt = Datetime::from_str(s).unwrap();
        let shown = dt.display();
        let again = Datetime::from_str(&shown).unwrap();
        assert_eq!(dt, again);
    }
    assert_eq!(
        Datetime::from_str("1979-05-27T07:32:00Z").unwrap().display(),
        "1979-05-27T07:32:00Z"
    );
    // Trailing zeros of the fraction are dropped in the canonical form.
    assert_eq!(
        Datetime::from_str("00:32:00.500").unwrap().display(),
        "00:32:00.5"
    );
    assert_eq!(
        Datetime::from_str("1979-05-27T00:32:00-07:00").unwrap().display(),
        "1979-05-27T00:32:00-07:00"
    );
}
