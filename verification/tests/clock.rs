use chrono::{DateTime, Local, Utc};
use ntp_monitor::clock::{
    format_in_zone, format_system_time, format_system_time_with_timezone, get_common_timezones,
};
use ntp_monitor::time::Timestamp;

fn at(secs: i64) -> Timestamp {
    Timestamp { secs, nanos: 999_999_999 }
}

#[test]
fn utc_text() {
    assert_eq!(format_system_time_with_timezone(at(0), "UTC"), "1970-01-01 00:00:00 UTC");
    assert_eq!(
        format_system_time_with_timezone(at(1_700_000_000), "UTC"),
        "2023-11-14 22:13:20 UTC"
    );
    assert_eq!(
        format_system_time_with_timezone(at(951_782_399), "UTC"),
        "2000-02-28 23:59:59 UTC"
    );
    assert_eq!(
        format_system_time_with_timezone(at(951_782_400), "UTC"),
        "2000-02-29 00:00:00 UTC"
    );
}

#[test]
fn fixed_zones() {
    let cases = [
        ("GMT", "2023-11-14 22:13:20 GMT"),
        ("EST", "2023-11-14 17:13:20 EST"),
        ("CST", "2023-11-14 16:13:20 CST"),
        ("MST", "2023-11-14 15:13:20 MST"),
        ("PST", "2023-11-14 14:13:20 PST"),
        ("CET", "2023-11-14 23:13:20 CET"),
        ("JST", "2023-11-15 07:13:20 JST"),
    ];
    for (zone, expected) in cases {
        assert_eq!(format_system_time_with_timezone(at(1_700_000_000), zone), expected);
    }
}

#[test]
fn west_of_utc_before_the_epoch() {
    assert_eq!(format_system_time_with_timezone(at(0), "PST"), "1969-12-31 16:00:00 PST");
}

#[test]
fn unknown_zone_is_utc() {
    for zone in ["", "utc", "Mars", "EST "] {
        assert_eq!(
            format_system_time_with_timezone(at(1_700_000_000), zone),
            "2023-11-14 22:13:20 UTC"
        );
    }
}

#[test]
fn last_second_of_the_calendar() {
    let last = 8_210_266_876_799;
    assert_eq!(
        format_system_time_with_timezone(at(last), "UTC"),
        "+262142-12-31 23:59:59 UTC"
    );
    assert_eq!(
        format_system_time_with_timezone(at(last), "JST"),
        "+262143-01-01 08:59:59 JST"
    );
    assert_eq!(format_system_time_with_timezone(at(last + 1), "UTC"), "Invalid");
    assert_eq!(format_system_time_with_timezone(at(last + 1), "Local"), "Invalid");
    assert_eq!(format_system_time_with_timezone(at(i64::MAX), "EST"), "Invalid");
}

#[test]
fn years_beyond_four_digits() {
    assert_eq!(
        format_system_time_with_timezone(at(253_402_300_799), "UTC"),
        "9999-12-31 23:59:59 UTC"
    );
    assert_eq!(
        format_system_time_with_timezone(at(253_402_300_800), "UTC"),
        "+10000-01-01 00:00:00 UTC"
    );
}

#[test]
fn before_the_epoch_is_invalid() {
    assert_eq!(format_system_time_with_timezone(at(-1), "UTC"), "Invalid");
    assert_eq!(format_system_time(at(-1)), "Invalid");
}

#[test]
fn local_zone_at_a_given_offset() {
    let time = at(1_700_000_000);
    assert_eq!(format_in_zone(time, "Local", 0), "2023-11-14 22:13:20 +00:00");
    assert_eq!(format_in_zone(time, "Local", 19_800), "2023-11-15 03:43:20 +05:30");
    assert_eq!(format_in_zone(time, "Local", -12_600), "2023-11-14 18:43:20 -03:30");
    assert_eq!(format_in_zone(time, "Local", 1_172), "2023-11-14 22:32:52 +00:19:32");
    assert_eq!(format_in_zone(time, "UTC", 19_800), "2023-11-14 22:13:20 UTC");
}

#[test]
fn local_zone_of_the_machine() {
    for secs in [0, 1_700_000_000, 1_720_000_000] {
        let expected = DateTime::<Utc>::from_timestamp(secs, 0)
            .unwrap()
            .with_timezone(&Local)
            .format("%Y-%m-%d %H:%M:%S %Z")
            .to_string();
        assert_eq!(format_system_time_with_timezone(at(secs), "Local"), expected);
    }
}

#[test]
fn time_of_day() {
    assert_eq!(format_system_time(at(0)), "00:00:00");
    assert_eq!(format_system_time(at(1_700_000_000)), "22:13:20");
    assert_eq!(format_system_time(at(86_399)), "23:59:59");
    assert_eq!(format_system_time(at(86_400)), "00:00:00");
    assert_eq!(format_system_time(at(i64::MAX)), "15:30:07");
}

#[test]
fn utc_text_holds_time_of_day() {
    for secs in [0, 59, 3_600, 86_399, 1_700_000_000] {
        let text = format_system_time_with_timezone(at(secs), "UTC");
        assert!(text.ends_with(&format!(" {} UTC", format_system_time(at(secs)))));
    }
}

#[test]
fn common_timezones() {
    assert_eq!(
        get_common_timezones(),
        vec!["UTC", "Local", "GMT", "EST", "CST", "MST", "PST", "CET", "JST"]
    );
}

#[test]
fn distinct_seconds_differ() {
    let mut texts: Vec<String> = (0..5_000)
        .map(|i| format_system_time_with_timezone(at(951_780_000 + i * 37), "MST"))
        .collect();
    texts.sort();
    texts.dedup();
    assert_eq!(texts.len(), 5_000);
}
