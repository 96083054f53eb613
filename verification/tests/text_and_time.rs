use chrono::{Offset, TimeZone, Timelike};
use debug_overlay::level::{AnsiColor, Level};
use debug_overlay::text::to_terminal_lines;
use debug_overlay::timestamp::{Timestamp, MAX_SECS, MIN_SECS};

#[test]
fn line_feeds_gain_a_carriage_return() {
    assert_eq!(to_terminal_lines("a\nb"), "a\r\nb");
    assert_eq!(to_terminal_lines("\n\n"), "\r\n\r\n");
    assert_eq!(to_terminal_lines("one\ntwo\nthree\n"), "one\r\ntwo\r\nthree\r\n");
}

#[test]
fn text_without_line_feeds_is_unchanged() {
    assert_eq!(to_terminal_lines(""), "");
    assert_eq!(to_terminal_lines("boom"), "boom");
    assert_eq!(to_terminal_lines("tab\tand\rreturn"), "tab\tand\rreturn");
    assert_eq!(to_terminal_lines("h\u{e9}llo \u{1f600}"), "h\u{e9}llo \u{1f600}");
}

#[test]
fn existing_carriage_returns_are_kept() {
    assert_eq!(to_terminal_lines("a\r\nb"), "a\r\r\nb");
}

#[test]
fn terminal_lines_agree_with_str_replace() {
    for sample in ["", "\n", "x\ny", "\n\nx\n", "no newline", "\r\n", "a\u{2028}b\n"] {
        assert_eq!(to_terminal_lines(sample), sample.replace("\n", "\r\n"));
    }
}

#[test]
fn level_names_are_those_of_the_log_crate() {
    assert_eq!(Level::Error.name(), "ERROR");
    assert_eq!(Level::Warn.name(), "WARN");
    assert_eq!(Level::Info.name(), "INFO");
    assert_eq!(Level::Debug.name(), "DEBUG");
    assert_eq!(Level::Trace.name(), "TRACE");
    assert_eq!(Level::Error.name(), log::Level::Error.as_str());
    assert_eq!(Level::Trace.name(), log::Level::Trace.to_string());
}

#[test]
fn level_colors_follow_the_fixed_mapping() {
    assert_eq!(Level::Error.color(), AnsiColor::Maroon);
    assert_eq!(Level::Warn.color(), AnsiColor::Red);
    assert_eq!(Level::Info.color(), AnsiColor::Green);
    assert_eq!(Level::Debug.color(), AnsiColor::Blue);
    assert_eq!(Level::Trace.color(), AnsiColor::Fuchsia);
}

#[test]
fn timestamp_keeps_what_it_was_made_of() {
    let t = Timestamp::new(1_700_000_000, 123_456_789, -18_000).unwrap();
    assert_eq!(t.secs(), 1_700_000_000);
    assert_eq!(t.nanos(), 123_456_789);
    assert_eq!(t.utc_offset(), -18_000);
}

#[test]
fn timestamp_accepts_the_whole_range() {
    assert!(Timestamp::new(MAX_SECS, 1_999_999_999, 86_399).is_some());
    assert!(Timestamp::new(MIN_SECS, 0, -86_399).is_some());
    assert!(Timestamp::new(0, 0, 0).is_some());
    assert!(Timestamp::new(-1, 1_999_999_999, 0).is_some());
    assert!(Timestamp::new(59, 1_000_000_000, 0).is_some());
    assert!(Timestamp::new(58, 1_000_000_000, 0).is_some());
    assert!(Timestamp::new(0, 1_500_000_000, 0).is_some());
}

#[test]
fn timestamp_refuses_what_lies_outside() {
    assert!(Timestamp::new(MAX_SECS + 1, 0, 0).is_none());
    assert!(Timestamp::new(MIN_SECS - 1, 0, 0).is_none());
    assert!(Timestamp::new(i64::MAX, 0, 0).is_none());
    assert!(Timestamp::new(i64::MIN, 0, 0).is_none());
    assert!(Timestamp::new(0, 2_000_000_000, 0).is_none());
    assert!(Timestamp::new(0, u32::MAX, 0).is_none());
    assert!(Timestamp::new(0, 0, 86_400).is_none());
    assert!(Timestamp::new(0, 0, -86_400).is_none());
    assert!(Timestamp::new(0, 0, i32::MIN).is_none());
}

#[test]
fn range_of_timestamps_is_that_of_chrono() {
    assert_eq!(chrono::DateTime::<chrono::Utc>::MIN_UTC.timestamp(), MIN_SECS);
    assert_eq!(chrono::DateTime::<chrono::Utc>::MAX_UTC.timestamp(), MAX_SECS);
    for secs in [MIN_SECS - 1, MIN_SECS, MIN_SECS + 1, -1, 0, 1, MAX_SECS - 1, MAX_SECS, MAX_SECS + 1] {
        assert_eq!(
            Timestamp::new(secs, 0, 0).is_some(),
            chrono::DateTime::from_timestamp(secs, 0).is_some(),
            "{}",
            secs
        );
    }
    for offset in [-86_401, -86_400, -86_399, 0, 86_399, 86_400, 86_401] {
        assert_eq!(
            Timestamp::new(0, 0, offset).is_some(),
            chrono::FixedOffset::east_opt(offset).is_some(),
            "{}",
            offset
        );
    }
}

#[test]
fn every_time_of_chrono_is_kept_as_it_is() {
    let zone = chrono::FixedOffset::east_opt(5 * 3600 + 1800).unwrap();
    let plain = zone.with_ymd_and_hms(2024, 2, 29, 23, 59, 58).unwrap();
    let times = [
        plain,
        plain.with_nanosecond(999_999_999).unwrap(),
        plain.with_nanosecond(1_333_333_333).unwrap(),
        chrono::DateTime::<chrono::Utc>::MIN_UTC.with_timezone(&zone),
        chrono::DateTime::<chrono::Utc>::MAX_UTC.with_timezone(&zone),
        chrono::Local::now().fixed_offset(),
    ];
    for time in times {
        let kept = Timestamp::new(
            time.timestamp(),
            time.timestamp_subsec_nanos(),
            time.offset().fix().local_minus_utc(),
        )
        .unwrap();
        assert_eq!(kept.clock(), time.format("%H:%M:%S%.3f ").to_string(), "{:?}", time);
    }
}

#[test]
fn instants_are_ordered_by_seconds_and_nanoseconds() {
    let a = Timestamp::new(10, 5, 0).unwrap();
    let b = Timestamp::new(10, 6, 0).unwrap();
    let c = Timestamp::new(11, 0, 0).unwrap();
    assert!(a.at_or_before(&a));
    assert!(a.at_or_before(&b));
    assert!(!b.at_or_before(&a));
    assert!(b.at_or_before(&c));
    assert!(!c.at_or_before(&b));
    assert!(a.at_or_before(&c));
    let before_epoch = Timestamp::new(-1, 999_999_999, 0).unwrap();
    assert!(before_epoch.at_or_before(&a));
    assert!(!a.at_or_before(&before_epoch));
}

#[test]
fn order_of_instants_ignores_the_offset() {
    let east = Timestamp::new(1000, 0, 7200).unwrap();
    let west = Timestamp::new(1000, 0, -7200).unwrap();
    assert!(east.at_or_before(&west));
    assert!(west.at_or_before(&east));
    let later_west = Timestamp::new(1001, 0, -7200).unwrap();
    assert!(east.at_or_before(&later_west));
    assert!(!later_west.at_or_before(&east));
}

#[test]
fn order_of_instants_is_that_of_chrono() {
    let parts = [(0i64, 0u32), (0, 1), (1, 0), (-1, 999_999_999), (59, 1_500_000_000), (60, 0)];
    for (s1, n1) in parts {
        for (s2, n2) in parts {
            let ours = Timestamp::new(s1, n1, 0).unwrap().at_or_before(&Timestamp::new(s2, n2, 3600).unwrap());
            let zone = chrono::FixedOffset::east_opt(3600).unwrap();
            let theirs = chrono::DateTime::from_timestamp(s1, n1).unwrap()
                <= chrono::DateTime::from_timestamp(s2, n2).unwrap().with_timezone(&zone);
            assert_eq!(ours, theirs);
        }
    }
}

#[test]
fn clock_shows_the_time_of_day_in_fixed_width() {
    assert_eq!(Timestamp::new(0, 0, 0).unwrap().clock(), "00:00:00.000 ");
    assert_eq!(Timestamp::new(1_700_000_000, 123_456_789, 0).unwrap().clock(), "22:13:20.123 ");
    assert_eq!(Timestamp::new(3_661, 7_000_000, 0).unwrap().clock(), "01:01:01.007 ");
    assert_eq!(Timestamp::new(86_399, 999_999_999, 0).unwrap().clock(), "23:59:59.999 ");
}

#[test]
fn clock_cuts_the_milliseconds() {
    assert_eq!(Timestamp::new(0, 999_999, 0).unwrap().clock(), "00:00:00.000 ");
    assert_eq!(Timestamp::new(0, 1_999_999, 0).unwrap().clock(), "00:00:00.001 ");
    assert_eq!(Timestamp::new(0, 26_490_000, 0).unwrap().clock(), "00:00:00.026 ");
}

#[test]
fn clock_is_local_to_the_offset() {
    assert_eq!(Timestamp::new(1_700_000_000, 123_456_789, 3_600).unwrap().clock(), "23:13:20.123 ");
    assert_eq!(Timestamp::new(1_700_000_000, 0, 7_200).unwrap().clock(), "00:13:20.000 ");
    assert_eq!(Timestamp::new(0, 0, -1).unwrap().clock(), "23:59:59.000 ");
    assert_eq!(Timestamp::new(0, 0, 19_800).unwrap().clock(), "05:30:00.000 ");
    assert_eq!(Timestamp::new(-1, 500_000_000, 0).unwrap().clock(), "23:59:59.500 ");
}

#[test]
fn clock_shows_a_leap_second_as_second_sixty() {
    assert_eq!(Timestamp::new(59, 1_500_000_000, 0).unwrap().clock(), "00:00:60.500 ");
    assert_eq!(Timestamp::new(86_399, 1_000_000_000, 0).unwrap().clock(), "23:59:60.000 ");
}

#[test]
fn clock_within_a_leap_second_elsewhere_shows_the_next_second() {
    assert_eq!(Timestamp::new(0, 1_500_000_000, 0).unwrap().clock(), "00:00:01.500 ");
    assert_eq!(Timestamp::new(59, 1_250_000_000, 30).unwrap().clock(), "00:01:30.250 ");
}

#[test]
fn clock_at_the_ends_of_the_range() {
    assert_eq!(Timestamp::new(MAX_SECS, 0, 0).unwrap().clock(), "23:59:59.000 ");
    assert_eq!(Timestamp::new(MIN_SECS, 0, 0).unwrap().clock(), "00:00:00.000 ");
    assert_eq!(Timestamp::new(MAX_SECS, 1_999_999_999, 86_399).unwrap().clock(), "23:59:59.999 ");
    assert_eq!(Timestamp::new(MIN_SECS, 0, -86_399).unwrap().clock(), "00:00:01.000 ");
    assert_eq!(Timestamp::new(MAX_SECS, 0, 1).unwrap().clock(), "00:00:00.000 ");
    assert_eq!(Timestamp::new(MIN_SECS, 0, -1).unwrap().clock(), "23:59:59.000 ");
}
