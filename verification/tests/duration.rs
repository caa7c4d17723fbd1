use beam::duration::{
    format_duration, now, parse_duration_value, readable_duration, remaining_between,
    remaining_until, timestamp_at, unix_now, unix_secs_at, Duration, Timestamp,
};

#[test]
fn parses_human_duration() {
    assert!(readable_duration("15m"));
    assert_eq!(
        parse_duration_value("15m").unwrap(),
        Duration::from_secs(900)
    );
    assert!(readable_duration("2h 30m"));
    assert_eq!(
        parse_duration_value("2h 30m").unwrap(),
        Duration::from_secs(9_000)
    );
}

#[test]
fn formats_human_duration() {
    assert_eq!(format_duration(Duration::from_secs(0)), "0s");
    assert_eq!(format_duration(Duration::from_secs(65)), "1m 5s");
    assert_eq!(format_duration(Duration::from_secs(3_661)), "1h 1m 1s");
}

#[test]
fn formats_days_and_leaves_out_zero_units() {
    assert_eq!(format_duration(Duration::from_secs(86_400)), "1d");
    assert_eq!(format_duration(Duration::from_secs(90_000)), "1d 1h");
    assert_eq!(format_duration(Duration::from_secs(172_805)), "2d 5s");
    assert_eq!(format_duration(Duration { secs: 0, nanos: 1 }), "");
}

#[test]
fn refuses_what_is_no_duration() {
    assert!(parse_duration_value("soon").is_err());
    assert!(parse_duration_value("").is_err());
    assert_eq!(parse_duration_value("250ms").unwrap(), Duration { secs: 0, nanos: 250_000_000 });
}

#[test]
fn some_texts_are_not_readable() {
    assert!(readable_duration("10s"));
    assert!(readable_duration("1700000000000ms"));
    assert_eq!(parse_duration_value("1700000000000ms").unwrap(), Duration::from_secs(1_700_000_000));
    assert!(readable_duration("18446744073709551615s"));
    assert!(readable_duration("100000000000mins"));
    assert_eq!(
        parse_duration_value("100000000000mins").unwrap(),
        Duration::from_secs(6_000_000_000_000)
    );
    assert!(readable_duration("100000000000months"));
    assert!(!readable_duration("100000000000y 1ns"));
    assert!(!readable_duration("18446744073709551615s 999999999ns 1ns"));
}

#[test]
fn digits_behind_a_point_are_readable() {
    assert!(readable_duration("0.5000000000000h"));
    assert_eq!(parse_duration_value("0.5000000000000h").unwrap(), Duration::from_secs(1_800));
    assert!(readable_duration("1.50000000000 s"));
    assert_eq!(parse_duration_value("1.5s").unwrap(), Duration { secs: 1, nanos: 500_000_000 });
    assert!(!readable_duration("0.5h 100000000000s"));
}

#[test]
fn shown_durations_are_read_back() {
    for secs in [0, 1, 59, 60, 3_600, 86_399, 86_400, 90_061, 1_000_000_007, u64::MAX] {
        let shown = format_duration(Duration::from_secs(secs));
        assert!(readable_duration(&shown));
        assert_eq!(parse_duration_value(&shown).unwrap(), Duration::from_secs(secs));
    }
}

#[test]
fn nothing_is_left_after_the_deadline() {
    let deadline = Timestamp { nanos: 1_000 };
    assert!(remaining_between(deadline, Timestamp { nanos: 1_000 }).is_zero());
    assert!(remaining_between(deadline, Timestamp { nanos: 5_000 }).is_zero());
    let left = remaining_between(Timestamp { nanos: 2_500_000_000 }, Timestamp { nanos: 0 });
    assert_eq!(left, Duration { secs: 2, nanos: 500_000_000 });
    assert_eq!(Timestamp { nanos: 0 }.after(left).nanos, 2_500_000_000);
}

#[test]
fn clock_readings_become_timestamps() {
    assert_eq!(timestamp_at(Ok(Duration { secs: 3, nanos: 4 })).nanos, 3_000_000_004);
    assert_eq!(timestamp_at(Err(Duration { secs: 3, nanos: 4 })).nanos, -3_000_000_004);
    assert_eq!(unix_secs_at(Timestamp { nanos: 3_999_999_999 }), 3);
    assert_eq!(unix_secs_at(Timestamp { nanos: -1 }), 0);
}

#[test]
fn the_clock_runs() {
    assert!(unix_now() > 1_700_000_000);
    let soon = now().after(Duration::from_secs(100));
    let left = remaining_until(soon);
    assert!(left.as_secs() <= 100 && left.as_secs() >= 90);
}
