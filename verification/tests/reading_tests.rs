use co2_sensor::reading::Reading;
use co2_sensor::timestamp::{ClockReading, Timestamp};

fn stamp(year: i32, month: u32, day: u32, hour: u32, minute: u32, second: u32) -> Timestamp {
    Timestamp::new(year, month, day, hour, minute, second).unwrap()
}

#[test]
fn timestamp_keeps_its_fields() {
    let t = stamp(2024, 3, 9, 7, 5, 1);
    assert_eq!(t.year(), 2024);
    assert_eq!(t.month(), 3);
    assert_eq!(t.day(), 9);
    assert_eq!(t.hour(), 7);
    assert_eq!(t.minute(), 5);
    assert_eq!(t.second(), 1);
}

#[test]
fn timestamp_accepts_the_edges_of_each_range() {
    assert!(Timestamp::new(0, 1, 1, 0, 0, 0).is_some());
    assert!(Timestamp::new(9999, 12, 31, 23, 59, 59).is_some());
}

#[test]
fn timestamp_refuses_what_lies_outside() {
    assert!(Timestamp::new(-1, 1, 1, 0, 0, 0).is_none());
    assert!(Timestamp::new(10000, 1, 1, 0, 0, 0).is_none());
    assert!(Timestamp::new(2024, 0, 1, 0, 0, 0).is_none());
    assert!(Timestamp::new(2024, 13, 1, 0, 0, 0).is_none());
    assert!(Timestamp::new(2024, 1, 0, 0, 0, 0).is_none());
    assert!(Timestamp::new(2024, 1, 32, 0, 0, 0).is_none());
    assert!(Timestamp::new(2024, 1, 1, 24, 0, 0).is_none());
    assert!(Timestamp::new(2024, 1, 1, 0, 60, 0).is_none());
    assert!(Timestamp::new(2024, 1, 1, 0, 0, 60).is_none());
}

#[test]
fn timestamp_from_clock_goes_by_the_same_ranges() {
    let clock = ClockReading { year: 2024, month: 3, day: 9, hour: 7, minute: 5, second: 1 };
    assert_eq!(Timestamp::from_clock(clock), Some(stamp(2024, 3, 9, 7, 5, 1)));
    let late = ClockReading { year: 12024, ..clock };
    assert_eq!(Timestamp::from_clock(late), None);
}

#[test]
fn timestamp_text_is_zero_padded() {
    let mut out = Vec::new();
    stamp(7, 3, 9, 7, 5, 1).write_text(&mut out);
    assert_eq!(out, b"0007-03-09 07:05:01".to_vec());
}

#[test]
fn timestamp_text_is_appended_to_what_is_there() {
    let mut out = b"at ".to_vec();
    stamp(2024, 12, 31, 23, 59, 59).write_text(&mut out);
    assert_eq!(out, b"at 2024-12-31 23:59:59".to_vec());
}

#[test]
fn line_is_timestamp_comma_ppm() {
    let r = Reading::new(stamp(2024, 3, 9, 17, 45, 30), 410);
    assert_eq!(r.to_line(), b"2024-03-09 17:45:30,410".to_vec());
}

#[test]
fn record_is_the_line_and_a_line_end() {
    let r = Reading::new(stamp(2024, 3, 9, 17, 45, 30), 410);
    assert_eq!(r.to_record(), b"2024-03-09 17:45:30,410\n".to_vec());
}

#[test]
fn line_of_zero_and_of_the_largest_concentration() {
    let t = stamp(2024, 1, 1, 0, 0, 0);
    assert_eq!(Reading::new(t, 0).to_line(), b"2024-01-01 00:00:00,0".to_vec());
    assert_eq!(
        Reading::new(t, u32::MAX).to_line(),
        b"2024-01-01 00:00:00,4294967295".to_vec()
    );
}

#[test]
fn parse_reads_back_what_was_written() {
    let readings = [
        Reading::new(stamp(2024, 3, 9, 17, 45, 30), 410),
        Reading::new(stamp(0, 1, 1, 0, 0, 0), 0),
        Reading::new(stamp(9999, 12, 31, 23, 59, 59), u32::MAX),
        Reading::new(stamp(1999, 10, 20, 9, 8, 7), 65535),
        Reading::new(stamp(2030, 6, 15, 12, 0, 0), 10),
    ];
    for r in readings {
        assert_eq!(Reading::parse_line(&r.to_line()), Some(r));
    }
}

#[test]
fn parse_gives_the_fields_of_a_line() {
    let r = Reading::parse_line(b"2023-11-05 06:07:08,1234").unwrap();
    assert_eq!(r.timestamp, stamp(2023, 11, 5, 6, 7, 8));
    assert_eq!(r.ppm, 1234);
}

#[test]
fn parse_refuses_short_and_empty_lines() {
    assert_eq!(Reading::parse_line(b""), None);
    assert_eq!(Reading::parse_line(b"2024-03-09 17:45:30"), None);
    assert_eq!(Reading::parse_line(b"2024-03-09 17:45:30,"), None);
}

#[test]
fn parse_refuses_wrong_separators() {
    assert_eq!(Reading::parse_line(b"2024/03-09 17:45:30,410"), None);
    assert_eq!(Reading::parse_line(b"2024-03/09 17:45:30,410"), None);
    assert_eq!(Reading::parse_line(b"2024-03-09T17:45:30,410"), None);
    assert_eq!(Reading::parse_line(b"2024-03-09 17.45:30,410"), None);
    assert_eq!(Reading::parse_line(b"2024-03-09 17:45.30,410"), None);
    assert_eq!(Reading::parse_line(b"2024-03-09 17:45:30;410"), None);
}

#[test]
fn parse_refuses_what_is_no_digit() {
    assert_eq!(Reading::parse_line(b"20x4-03-09 17:45:30,410"), None);
    assert_eq!(Reading::parse_line(b"2024-0a-09 17:45:30,410"), None);
    assert_eq!(Reading::parse_line(b"2024-03-09 17:45:3 ,410"), None);
    assert_eq!(Reading::parse_line(b"2024-03-09 17:45:30,4x0"), None);
    assert_eq!(Reading::parse_line(b"2024-03-09 17:45:30,-10"), None);
    assert_eq!(Reading::parse_line(b"2024-03-09 17:45:30,410\n"), None);
}

#[test]
fn parse_refuses_fields_out_of_range() {
    assert_eq!(Reading::parse_line(b"2024-13-09 17:45:30,410"), None);
    assert_eq!(Reading::parse_line(b"2024-00-09 17:45:30,410"), None);
    assert_eq!(Reading::parse_line(b"2024-03-32 17:45:30,410"), None);
    assert_eq!(Reading::parse_line(b"2024-03-00 17:45:30,410"), None);
    assert_eq!(Reading::parse_line(b"2024-03-09 24:45:30,410"), None);
    assert_eq!(Reading::parse_line(b"2024-03-09 17:60:30,410"), None);
    assert_eq!(Reading::parse_line(b"2024-03-09 17:45:60,410"), None);
}

#[test]
fn parse_refuses_a_concentration_that_is_not_written_plainly() {
    assert_eq!(Reading::parse_line(b"2024-03-09 17:45:30,0410"), None);
    assert_eq!(Reading::parse_line(b"2024-03-09 17:45:30,00"), None);
    assert_eq!(Reading::parse_line(b"2024-03-09 17:45:30,+410"), None);
}

#[test]
fn parse_refuses_a_concentration_beyond_32_bits() {
    assert_eq!(Reading::parse_line(b"2024-03-09 17:45:30,4294967296"), None);
    assert_eq!(Reading::parse_line(b"2024-03-09 17:45:30,99999999999999999999999"), None);
    assert!(Reading::parse_line(b"2024-03-09 17:45:30,4294967295").is_some());
}
