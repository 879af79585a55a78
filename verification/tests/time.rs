use loiter::{parse_prefix_offset, parse_timestamp, Duration, Error, NumberError, Timestamp};
use loiter::parse_duration_components;

fn at(year: i32, month: u8, day: u8, hour: u8, minute: u8, second: u8, offset_hours: i8) -> Timestamp {
    let date = time::Date::from_calendar_date(year, time::Month::try_from(month).unwrap(), day).unwrap();
    let offset = time::UtcOffset::from_hms(offset_hours, 0, 0).unwrap();
    let dt = date.with_hms(hour, minute, second).unwrap().assume_offset(offset);
    Timestamp::from_unix(dt.unix_timestamp(), 0, offset.whole_seconds()).unwrap()
}

fn local_now() -> Timestamp {
    at(2021, 11, 4, 17, 0, 0, -4)
}

#[test]
fn timestamp_parsing() {
    let cases: Vec<(String, Timestamp)> = vec![
        ("2021-11-04 12:43".to_string(), at(2021, 11, 4, 12, 43, 0, -4)),
        ("2021-11-04 12:43:23".to_string(), at(2021, 11, 4, 12, 43, 23, -4)),
        ("2021-11-04 12:43:23 +02:00".to_string(), at(2021, 11, 4, 12, 43, 23, 2)),
        ("yesterday@10:00".to_string(), at(2021, 11, 3, 10, 0, 0, -4)),
        ("yst@10:00".to_string(), at(2021, 11, 3, 10, 0, 0, -4)),
        ("tomorrow@10:00".to_string(), at(2021, 11, 5, 10, 0, 0, -4)),
        ("tmrw@10:00".to_string(), at(2021, 11, 5, 10, 0, 0, -4)),
        ("10:00".to_string(), at(2021, 11, 4, 10, 0, 0, -4)),
        ("10:23:44".to_string(), at(2021, 11, 4, 10, 23, 44, -4)),
        ("now".to_string(), at(2021, 11, 4, 17, 0, 0, -4)),
    ];
    for (ts, expected) in cases.iter() {
        let actual = parse_timestamp(ts, &local_now()).unwrap();
        assert_eq!(&actual, expected);
        assert_eq!(actual.offset_seconds(), expected.offset_seconds(), "{}", ts);
    }
}

#[test]
fn duration_parsing() {
    let cases: Vec<(String, i64)> = vec![
        ("1m".to_string(), 60),
        ("2m".to_string(), 2 * 60),
        ("80m".to_string(), 80 * 60),
        ("1h".to_string(), 60 * 60),
        ("1h30m".to_string(), (60 * 60) + (30 * 60)),
        ("1d".to_string(), 24 * 60 * 60),
        ("1d4h12m".to_string(), (24 * 60 * 60) + (4 * 60 * 60) + (12 * 60)),
    ];
    for (s, expected) in cases.iter() {
        let actual = Duration::from_str(s).unwrap();
        assert_eq!(actual.whole_seconds(), *expected);
    }
}

#[test]
fn duration_formatting() {
    let cases: Vec<(i64, String)> = vec![
        (60, "1m".to_string()),
        (1, "1s".to_string()),
        (60 * 60, "1h".to_string()),
        ((30 * 60) + (60 * 60), "1h 30m".to_string()),
        (24 * 60 * 60, "1d".to_string()),
        (7 * 24 * 60 * 60, "1w".to_string()),
        ((7 * 24 * 60 * 60) + (3 * 24 * 60 * 60) + (4 * 60 * 60), "1w 3d 4h".to_string()),
    ];
    for (secs, expected) in cases.iter() {
        let duration = Duration::from_seconds(*secs);
        let actual = duration.to_string();
        assert_eq!(&actual, expected);
    }
}

#[test]
fn yesterday_at_ten() {
    let t = parse_timestamp("yesterday@10:00", &local_now()).unwrap();
    assert_eq!(t, at(2021, 11, 3, 10, 0, 0, -4));
    assert_eq!(t.offset_seconds(), -4 * 3600);
    assert_eq!(Duration::from_str("1h30m").unwrap().whole_seconds(), 5400);
    assert_eq!(Duration::from_seconds(5400).to_string(), "1h 30m");
}

#[test]
fn duration_components_follow_the_scanner() {
    let pairs = |v: Vec<(&str, &str)>| -> Vec<(String, String)> {
        v.into_iter().map(|(a, b)| (a.to_string(), b.to_string())).collect()
    };
    assert_eq!(parse_duration_components("1h30m").unwrap(), pairs(vec![("1", "h"), ("30", "m")]));
    assert_eq!(parse_duration_components("1h 30m").unwrap(), pairs(vec![("1", "h"), ("30", "m")]));
    assert_eq!(parse_duration_components("1h30").unwrap(), pairs(vec![("1", "h")]));
    assert_eq!(parse_duration_components("15").unwrap(), pairs(vec![]));
    assert_eq!(parse_duration_components("").unwrap(), pairs(vec![]));
    assert_eq!(parse_duration_components("2 d ").unwrap(), pairs(vec![("2", " d ")]));
    assert_eq!(parse_duration_components("2 d 3h").unwrap(), pairs(vec![("2", "d"), ("3", "h")]));
    assert_eq!(
        parse_duration_components("h1"),
        Err(Error::DurationMustStartWithNumber("h1".to_string()))
    );
}

#[test]
fn duration_faults() {
    assert_eq!(Duration::from_str("x"), Err(Error::DurationMustStartWithNumber("x".to_string())));
    assert_eq!(Duration::from_str("1x"), Err(Error::InvalidDurationUnit("x".to_string())));
    assert_eq!(Duration::from_str("1h2q3x"), Err(Error::InvalidDurationUnit("q".to_string())));
    assert_eq!(
        Duration::from_str("99999999999h"),
        Err(Error::InvalidDurationAmount("99999999999".to_string(), NumberError::TooLarge))
    );
    assert_eq!(
        Duration::from_str("1x99999999999h"),
        Err(Error::InvalidDurationUnit("x".to_string()))
    );
    assert_eq!(Duration::from_str("").unwrap(), Duration::zero());
    assert_eq!(Duration::from_str("2147483647w").unwrap().whole_seconds(), 2147483647 * 604800);
    let long = "2147483647w".repeat(8000);
    assert_eq!(
        Duration::from_str(&long),
        Err(Error::InvalidDuration("2147483647".to_string(), "w".to_string()))
    );
}

#[test]
fn duration_text_is_read_back() {
    for secs in [0i64, 1, 59, 60, 61, 3599, 3600, 5400, 86399, 86400, 604799, 604800, 1234567, 987654321] {
        let text = Duration::from_seconds(secs).to_string();
        assert_eq!(Duration::from_str(&text).unwrap().whole_seconds(), secs, "{}", text);
    }
    assert_eq!(Duration::from_seconds(-5).to_string(), "");
    assert_eq!(Duration::from_parts(0, 5).unwrap().to_string(), "");
    assert_eq!(Duration::from_seconds(694861).to_string(), "1w 1d 1h 1m 1s");
}

#[test]
fn duration_parts_are_checked() {
    assert!(Duration::from_parts(1, -1).is_none());
    assert!(Duration::from_parts(-1, 1).is_none());
    assert!(Duration::from_parts(0, 1_000_000_000).is_none());
    let d = Duration::from_parts(-2, -5).unwrap();
    assert_eq!((d.whole_seconds(), d.subsec_nanoseconds()), (-2, -5));
    assert!(d.less_than(&Duration::zero()));
    assert!(!Duration::zero().less_than(&Duration::zero()));
}

#[test]
fn prefix_is_cut_from_the_time() {
    let (shift, rest) = parse_prefix_offset(" Yesterday @ 10H30 ").unwrap();
    assert_eq!((shift.whole_seconds(), rest.as_str()), (-86400, "10h30"));
    let (shift, rest) = parse_prefix_offset("tmrw@9:00").unwrap();
    assert_eq!((shift.whole_seconds(), rest.as_str()), (86400, "9:00"));
    let (shift, rest) = parse_prefix_offset("9:00").unwrap();
    assert_eq!((shift.whole_seconds(), rest.as_str()), (0, "9:00"));
    assert_eq!(parse_prefix_offset("a@b@c"), Err(Error::InvalidDateTime("a@b@c".to_string())));
    assert_eq!(parse_prefix_offset("soon@9:00"), Err(Error::InvalidDateTime("soon@9:00".to_string())));
}

#[test]
fn timestamp_faults_and_forms() {
    let now = local_now();
    assert_eq!(parse_timestamp("nonsense", &now), Err(Error::InvalidDateTime("nonsense".to_string())));
    assert_eq!(parse_timestamp("soon@10:00", &now), Err(Error::InvalidDateTime("soon@10:00".to_string())));
    assert_eq!(parse_timestamp("  now ", &now).unwrap(), now);
    assert_eq!(parse_timestamp("2021-11-04T12:43", &now).unwrap(), at(2021, 11, 4, 12, 43, 0, -4));
    assert_eq!(parse_timestamp("10h30", &now).unwrap(), at(2021, 11, 4, 10, 30, 0, -4));
    assert_eq!(parse_timestamp("2021-11-04T12:43 -05:00", &now).unwrap(), at(2021, 11, 4, 12, 43, 0, -5));
    assert_eq!(Timestamp::parse("10:00", now).unwrap(), at(2021, 11, 4, 10, 0, 0, -4));
}

#[test]
fn days_weeks_months_and_years() {
    // 2021-11-04 was a Thursday.
    let now = local_now();
    assert_eq!(now.today(), at(2021, 11, 4, 0, 0, 0, -4));
    assert_eq!(now.tomorrow(), at(2021, 11, 5, 0, 0, 0, -4));
    assert_eq!(now.yesterday(), at(2021, 11, 3, 0, 0, 0, -4));
    assert_eq!(now.this_week(), at(2021, 11, 1, 0, 0, 0, -4));
    assert_eq!(now.next_week(), at(2021, 11, 8, 0, 0, 0, -4));
    assert_eq!(now.days_back(4), at(2021, 10, 31, 0, 0, 0, -4));
    assert_eq!(now.earlier_by_days(4), at(2021, 10, 31, 17, 0, 0, -4));
    assert_eq!(now.days_forward(30), at(2021, 12, 4, 0, 0, 0, -4));
    assert_eq!(now.this_month(), at(2021, 11, 1, 0, 0, 0, -4));
    assert_eq!(now.next_month(), at(2021, 12, 1, 0, 0, 0, -4));
    assert_eq!(now.this_year(), at(2021, 1, 1, 0, 0, 0, -4));
    assert_eq!(now.next_year(), at(2022, 1, 1, 0, 0, 0, -4));
    let monday = at(2021, 11, 1, 9, 0, 0, 2);
    assert_eq!(monday.this_week(), at(2021, 11, 1, 0, 0, 0, 2));
    let sunday = at(2021, 11, 7, 23, 59, 59, 2);
    assert_eq!(sunday.this_week(), at(2021, 11, 1, 0, 0, 0, 2));
    let long_ago = at(1960, 3, 2, 1, 0, 0, 0);
    assert_eq!(long_ago.today(), at(1960, 3, 2, 0, 0, 0, 0));
    assert_eq!(long_ago.this_week(), at(1960, 2, 29, 0, 0, 0, 0));
    assert_eq!(at(2021, 12, 31, 12, 0, 0, 0).next_month(), at(2022, 1, 1, 0, 0, 0, 0));
    assert_eq!(at(2020, 2, 29, 12, 0, 0, 0).next_year(), at(2021, 1, 1, 0, 0, 0, 0));
}

#[test]
fn timestamps_compare_by_moment() {
    let a = at(2021, 11, 4, 12, 0, 0, 0);
    let b = at(2021, 11, 4, 14, 0, 0, 2);
    assert_eq!(a, b);
    assert!(a.same_moment(&b));
    assert!(!a.before(&b));
    let c = Timestamp::from_unix(a.unix_seconds(), 1, 0).unwrap();
    assert!(a.before(&c));
    assert_ne!(a, c);
    assert_eq!(c.since(&a), Duration::from_parts(0, 1).unwrap());
    assert_eq!(a.since(&c), Duration::from_parts(0, -1).unwrap());
    let d = Timestamp::from_unix(a.unix_seconds() + 2, 0, 0).unwrap();
    assert_eq!(d.since(&c), Duration::from_parts(1, 999_999_999).unwrap());
    assert_eq!(c.since(&d), Duration::from_parts(-1, -999_999_999).unwrap());
    assert_eq!(c.checked_add(&Duration::from_parts(1, 999_999_999).unwrap()).unwrap(), d);
    assert!(d.checked_add(&Duration::from_seconds(i64::MAX)).is_none());
}

#[test]
fn timestamp_parts_are_checked() {
    assert!(Timestamp::from_unix(0, 1_000_000_000, 0).is_none());
    assert!(Timestamp::from_unix(0, 0, 93_600).is_none());
    assert!(Timestamp::from_unix(253_402_300_800, 0, 0).is_none());
    assert!(Timestamp::from_unix(253_402_300_799, 0, 0).is_some());
    assert!(Timestamp::from_unix(-377_705_116_801, 0, 0).is_none());
    assert!(Timestamp::from_unix(-377_705_116_800, 0, 0).is_some());
    let t = Timestamp::from_unix(1, 2, 3).unwrap();
    assert_eq!((t.unix_seconds(), t.nanosecond(), t.offset_seconds()), (1, 2, 3));
}

#[test]
fn timestamp_is_written_for_people() {
    assert_eq!(local_now().to_string(), "2021-11-04 17:00 -04");
    assert_eq!(at(1999, 1, 2, 3, 4, 5, 11).to_string(), "1999-01-02 03:04 +11");
}

#[test]
fn timestamps_are_written_for_documents() {
    let t = at(2021, 11, 4, 17, 0, 0, -4);
    assert_eq!(t.to_rfc3339().unwrap(), "2021-11-04T17:00:00-04:00");
    let back = Timestamp::from_rfc3339("2021-11-04T17:00:00-04:00").unwrap();
    assert_eq!(back, t);
    assert_eq!(back.offset_seconds(), -14_400);
    let fine = Timestamp::from_rfc3339("2021-11-04T21:00:00.5Z").unwrap();
    assert_eq!((fine.unix_seconds(), fine.nanosecond(), fine.offset_seconds()), (t.unix_seconds(), 500_000_000, 0));
    assert_eq!(Timestamp::from_rfc3339(&fine.to_rfc3339().unwrap()).unwrap(), fine);
    assert!(Timestamp::from_rfc3339("yesterday").is_none());
    assert!(Timestamp::from_unix(0, 0, 1).unwrap().to_rfc3339().is_none());
}

#[test]
fn room_for_days_is_counted_from_midnight() {
    let last_day = Timestamp::from_unix(253_402_300_799, 0, 0).unwrap();
    assert!(last_day.room(0, 0));
    assert!(!last_day.room(0, 1));
    assert!(last_day.room(65_535, 0));
    let first_day = Timestamp::from_unix(-377_705_116_800 + 5, 0, 0).unwrap();
    assert!(first_day.room(0, 366));
    assert!(!first_day.room(1, 0));
    assert!(local_now().room(65_535, 366));
}

#[test]
fn the_ends_of_the_calendar_are_those_of_the_time_crate() {
    assert!(time::OffsetDateTime::from_unix_timestamp(-377_705_116_800).is_ok());
    assert!(time::OffsetDateTime::from_unix_timestamp(-377_705_116_801).is_err());
    assert!(time::OffsetDateTime::from_unix_timestamp(253_402_300_799).is_ok());
    assert!(time::OffsetDateTime::from_unix_timestamp(253_402_300_800).is_err());
    assert!(time::UtcOffset::from_whole_seconds(93_599).is_ok());
    assert!(time::UtcOffset::from_whole_seconds(93_600).is_err());
    let first = Timestamp::from_unix(-377_705_116_800, 0, 0).unwrap();
    assert_eq!(first.to_string(), "-9999-01-01 00:00 +00");
    assert_eq!(first.today(), first);
    assert_eq!(first.this_week(), first);
    assert_eq!(first.this_month(), first);
    assert_eq!(first.this_year(), first);
    assert!(first.to_rfc3339().is_none());
    let early = Timestamp::from_unix(-377_705_116_800 + 40 * 86_400 + 7, 0, 0).unwrap();
    assert_eq!(early.this_year(), first);
    assert_eq!(early.this_month().unix_seconds(), -377_705_116_800 + 31 * 86_400);
    let last = Timestamp::from_unix(253_402_300_799, 999_999_999, 0).unwrap();
    assert_eq!(last.to_string(), "9999-12-31 23:59 +00");
    assert_eq!(last.to_rfc3339().unwrap(), "9999-12-31T23:59:59.999999999Z");
    assert_eq!(last.this_month().unix_seconds(), 253_402_300_800 - 31 * 86_400);
    let shown_east = Timestamp::from_unix(-377_705_116_800 - 3_600, 0, 3_600).unwrap();
    assert_eq!(shown_east.to_string(), "-9999-01-01 00:00 +01");
    assert_eq!(shown_east.this_year(), shown_east);
}
