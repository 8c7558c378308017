use ntp_monitor::display::{
    clock_label, column_titles, countdown_label, current_time_label, frequency_label, loaded_label,
    row_with_time, server_row, server_rows, shown_millis, time_diff_cell, timezone_label, CellColor,
};
use ntp_monitor::server::{NtpServerInfo, Reply};
use ntp_monitor::time::{TimeSpan, Timestamp};

fn millis(n: u64) -> TimeSpan {
    TimeSpan { secs: n / 1_000, nanos: (n % 1_000) as u32 * 1_000_000 + 999_999 }
}

#[test]
fn differences_and_their_colors() {
    let cases = [
        (0, "+0", CellColor::Green),
        (50, "+50", CellColor::Green),
        (51, "+51", CellColor::Yellow),
        (100, "+100", CellColor::Yellow),
        (101, "+101", CellColor::Red),
        (86_400_000, "+86400000", CellColor::Red),
    ];
    for (n, text, color) in cases {
        let cell = time_diff_cell(&Some(millis(n)));
        assert_eq!((cell.text.as_str(), cell.color), (text, color));
    }
    let cell = time_diff_cell(&None);
    assert_eq!((cell.text.as_str(), cell.color), ("N/A", CellColor::Plain));
}

#[test]
fn differences_out_of_range_wrap() {
    for secs in [0, 9_223_372_036_854_775, 9_223_372_036_854_776, 18_446_744_073_709_552, u64::MAX] {
        let diff = TimeSpan { secs, nanos: 999_000_000 };
        let expected = (secs as u128 * 1_000 + 999) as i64;
        assert_eq!(shown_millis(&diff), expected);
    }
}

#[test]
fn row_of_a_server_without_outcome() {
    let row = server_row(&NtpServerInfo::new("a".to_string(), None), "UTC");
    assert_eq!((row.name.as_str(), row.ip.as_str()), ("a", "a"));
    assert_eq!(row.current_time, "N/A");
    assert_eq!(row.time_diff.text, "N/A");
    assert_eq!(row.stratum, "N/A");
    assert_eq!(row.drift, None);
    assert_eq!((row.status.text.as_str(), row.status.color), ("Connecting...", CellColor::Plain));
}

#[test]
fn row_of_a_server_that_answered() {
    let mut server = NtpServerInfo::new("a".to_string(), Some("10.0.0.1".to_string()));
    server.record(Reply::Answer {
        time: Timestamp { secs: 1_700_000_000, nanos: 0 },
        stratum: 15,
        local_time: Timestamp { secs: 1_700_000_000, nanos: 70_000_000 },
    });
    let row = server_row(&server, "EST");
    assert_eq!(row.ip, "10.0.0.1");
    assert_eq!(row.current_time, "2023-11-14 17:13:20 EST");
    assert_eq!((row.time_diff.text.as_str(), row.time_diff.color), ("+70", CellColor::Yellow));
    assert_eq!(row.stratum, "15");
    assert_eq!((row.status.text.as_str(), row.status.color), ("Online", CellColor::Green));
    assert_eq!(row_with_time(&server, "x".to_string()).current_time, "x");
}

#[test]
fn row_of_a_server_that_failed() {
    let mut server = NtpServerInfo::default();
    server.record(Reply::Answer {
        time: Timestamp { secs: 5, nanos: 0 },
        stratum: 1,
        local_time: Timestamp { secs: 5, nanos: 0 },
    });
    server.record(Reply::Failure { message: "Request timeout".to_string() });
    let row = server_row(&server, "UTC");
    assert_eq!(row.current_time, "N/A");
    assert_eq!(row.time_diff.text, "N/A");
    assert_eq!(row.stratum, "N/A");
    assert_eq!((row.status.text.as_str(), row.status.color), ("Request timeout", CellColor::Red));
}

#[test]
fn countdown() {
    assert_eq!(countdown_label(None, 10), "Initializing...");
    assert_eq!(countdown_label(Some(0), 10), "Next update in: 10s");
    assert_eq!(countdown_label(Some(9), 10), "Next update in: 1s");
    assert_eq!(countdown_label(Some(10), 10), "Updating...");
    assert_eq!(countdown_label(Some(u64::MAX), 10), "Updating...");
}

#[test]
fn labels() {
    assert_eq!(loaded_label(0), None);
    assert_eq!(loaded_label(12), Some("Loaded 12 servers from ntp_servers.ini".to_string()));
    assert_eq!(frequency_label(30), "Current: Every 30 seconds");
    assert_eq!(timezone_label("JST"), "Selected: JST");
    assert_eq!(clock_label("X", "y"), "Current time (X): y");
    assert_eq!(
        current_time_label(Timestamp { secs: 0, nanos: 0 }, "JST"),
        "Current time (JST): 1970-01-01 09:00:00 JST"
    );
}

#[test]
fn rows_follow_the_list() {
    let mut servers: Vec<NtpServerInfo> =
        ["b", "a", "c"].iter().map(|name| NtpServerInfo::new(name.to_string(), None)).collect();
    servers[1].record(Reply::Answer {
        time: Timestamp { secs: 0, nanos: 0 },
        stratum: 3,
        local_time: Timestamp { secs: 0, nanos: 0 },
    });
    let rows = server_rows(&servers, "JST");
    let names: Vec<&str> = rows.iter().map(|row| row.name.as_str()).collect();
    assert_eq!(names, vec!["b", "a", "c"]);
    for (row, server) in rows.iter().zip(&servers) {
        assert_eq!(*row, server_row(server, "JST"));
    }
    assert_eq!(rows[1].current_time, "1970-01-01 09:00:00 JST");
    assert!(server_rows(&Vec::new(), "UTC").is_empty());
}

#[test]
fn titles_of_the_columns() {
    assert_eq!(
        column_titles(),
        vec![
            "Server Name",
            "IP Address",
            "Current Time",
            "Time Diff (ms)",
            "Stratum",
            "Drift (ppm)",
            "Status",
        ]
    );
}

#[test]
fn unknown_values_not_available() {
    let mut server = NtpServerInfo::default();
    server.current_time = Some(Timestamp { secs: -1, nanos: 0 });
    server.stratum = Some(0);
    let row = server_row(&server, "UTC");
    assert_eq!(row.current_time, "Invalid");
    assert_eq!(row.stratum, "0");
    assert_eq!(row.time_diff.text, "N/A");
}
