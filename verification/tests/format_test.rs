use logrelay::syslog::{format_record, format_timestamp, Timestamp};

#[test]
fn formats_the_documented_example_timestamp() {
    // 2003-08-24T05:14:15.000003+00:00, microsecond precision, explicit
    // UTC offset.
    let ts = Timestamp::new(2003, 8, 24, 5, 14, 15, 3).unwrap();
    let bytes = format_timestamp(&ts);
    assert_eq!(
        String::from_utf8(bytes).unwrap(),
        "2003-08-24T05:14:15.000003+00:00"
    );
}

#[test]
fn pads_every_timestamp_field() {
    let ts = Timestamp::new(1, 1, 2, 3, 4, 5, 0).unwrap();
    let bytes = format_timestamp(&ts);
    assert_eq!(
        String::from_utf8(bytes).unwrap(),
        "0001-01-02T03:04:05.000000+00:00"
    );
}

#[test]
fn formats_a_complete_record() {
    let ts = Timestamp::new(2003, 8, 24, 5, 14, 15, 3).unwrap();
    let record = format_record(&ts, b"myhost", b"myapp", b"hello world\n");
    assert_eq!(
        String::from_utf8(record).unwrap(),
        "<22>1 2003-08-24T05:14:15.000003+00:00 myhost myapp - - - hello world\n"
    );
}

#[test]
fn formatting_is_idempotent() {
    // The same (line, fixed timestamp, hostname, appname) formatted twice
    // yields byte-identical output.
    let ts = Timestamp::new(2020, 12, 31, 23, 59, 59, 999_999).unwrap();
    let a = format_record(&ts, b"h.example", b"prog", b"payload\n");
    let b = format_record(&ts, b"h.example", b"prog", b"payload\n");
    assert_eq!(a, b);
}

#[test]
fn rejects_out_of_range_timestamp_fields() {
    assert!(Timestamp::new(2023, 13, 1, 0, 0, 0, 0).is_none());
    assert!(Timestamp::new(2023, 0, 1, 0, 0, 0, 0).is_none());
    assert!(Timestamp::new(2023, 1, 32, 0, 0, 0, 0).is_none());
    assert!(Timestamp::new(2023, 1, 0, 0, 0, 0, 0).is_none());
    assert!(Timestamp::new(2023, 1, 1, 24, 0, 0, 0).is_none());
    assert!(Timestamp::new(2023, 1, 1, 0, 60, 0, 0).is_none());
    assert!(Timestamp::new(2023, 1, 1, 0, 0, 60, 0).is_none());
    assert!(Timestamp::new(2023, 1, 1, 0, 0, 0, 1_000_000).is_none());
    assert!(Timestamp::new(10_000, 1, 1, 0, 0, 0, 0).is_none());
}

#[test]
fn clock_parts_are_validated_and_leap_seconds_saturate() {
    // A leap second (nanoseconds of one second and above) saturates the
    // fractional part rather than overflowing the six digits.
    let ts = Timestamp::from_clock_parts(2016, 12, 31, 23, 59, 59, 1_500_000_000).unwrap();
    assert_eq!(ts.micros, 999_999);
    let ts = Timestamp::from_clock_parts(2016, 12, 31, 23, 59, 59, 123_456_789).unwrap();
    assert_eq!(ts.micros, 123_456);
    assert!(Timestamp::from_clock_parts(-1, 1, 1, 0, 0, 0, 0).is_none());
    assert!(Timestamp::from_clock_parts(10_000, 1, 1, 0, 0, 0, 0).is_none());
    assert!(Timestamp::from_clock_parts(2016, 13, 1, 0, 0, 0, 0).is_none());
}

#[test]
fn the_clock_yields_a_well_formed_timestamp() {
    let ts = Timestamp::now().expect("the system clock year should be representable");
    assert!((1..=12).contains(&ts.month));
    assert!((1..=31).contains(&ts.day));
    assert!(ts.hour <= 23);
    assert!(ts.minute <= 59);
    assert!(ts.second <= 59);
    assert!(ts.micros <= 999_999);
    // A current date, not a constant: the formatter would reject year 0.
    assert!(ts.year >= 2020);
}

#[test]
fn message_is_carried_verbatim() {
    let ts = Timestamp::new(2023, 6, 7, 8, 9, 10, 11).unwrap();
    let record = format_record(&ts, b"h", b"a", b"  spaced  text with - dashes\n");
    let text = String::from_utf8(record).unwrap();
    assert!(text.ends_with(" - - -   spaced  text with - dashes\n"));
}
