use ntp_monitor::server::{
    parse_server_names, resolve_hostname, server_list, Drift, NtpServerInfo, Reply,
};
use ntp_monitor::time::{TimeSpan, Timestamp};

fn at(secs: i64, nanos: u32) -> Timestamp {
    Timestamp { secs, nanos }
}

fn span(secs: u64, nanos: u32) -> TimeSpan {
    TimeSpan { secs, nanos }
}

fn answer(time: Timestamp, local_time: Timestamp) -> Reply {
    Reply::Answer { time, stratum: 2, local_time }
}

fn failure() -> Reply {
    Reply::Failure { message: "Response timeout".to_string() }
}

#[test]
fn distances() {
    assert_eq!(at(5, 0).distance(&at(3, 1)), span(1, 999_999_999));
    assert_eq!(at(3, 1).distance(&at(5, 0)), span(1, 999_999_999));
    assert_eq!(at(-2, 500_000_000).distance(&at(1, 0)), span(2, 500_000_000));
    assert_eq!(
        at(i64::MAX, 0).distance(&at(i64::MIN, 0)),
        span(u64::MAX, 0)
    );
    assert_eq!(at(3, 1).duration_since(&at(3, 2)), None);
    assert_eq!(at(3, 2).duration_since(&at(3, 2)), Some(span(0, 0)));
}

#[test]
fn epoch_conversions() {
    assert_eq!(Timestamp::after_epoch(span(7, 8)), Some(at(7, 8)));
    assert_eq!(Timestamp::after_epoch(span(u64::MAX, 0)), None);
    assert_eq!(Timestamp::before_epoch(span(7, 0)), Some(at(-7, 0)));
    assert_eq!(Timestamp::before_epoch(span(7, 1)), Some(at(-8, 999_999_999)));
    assert_eq!(Timestamp::before_epoch(span(1 << 63, 0)), Some(at(i64::MIN, 0)));
    assert_eq!(Timestamp::before_epoch(span(1 << 63, 1)), None);
    assert_eq!(at(-1, 0).since_epoch(), None);
    assert_eq!(at(1, 2).since_epoch(), Some(span(1, 2)));
    assert_eq!(span(1, 999_999_999).as_millis(), 1_999);
    assert_eq!(span(5, 0).secs_beyond(&span(3, 1)), 1);
    assert_eq!(span(5, 1).secs_beyond(&span(3, 1)), 2);
    assert_eq!(span(5, 0).secs_beyond(&span(5, 1)), 0);
    assert_eq!(span(4, 2).secs_beyond(&span(5, 1)), 0);
    assert!(span(0, 1).is_positive());
    assert!(!span(0, 0).is_positive());
}

#[test]
fn first_answer() {
    let mut server = NtpServerInfo::new("a".to_string(), Some("10.0.0.1".to_string()));
    server.record(answer(at(100, 0), at(99, 250_000_000)));
    assert_eq!(server.name, "a");
    assert_eq!(server.ip, "10.0.0.1");
    assert_eq!(server.current_time, Some(at(100, 0)));
    assert_eq!(server.time_diff, Some(span(0, 750_000_000)));
    assert_eq!(server.stratum, Some(2));
    assert_eq!(server.drift, None);
    assert_eq!(server.last_updated, Some(at(99, 250_000_000)));
    assert_eq!(server.error, None);
}

#[test]
fn second_answer_gives_drift() {
    let mut server = NtpServerInfo::default();
    server.record(answer(at(100, 0), at(99, 0)));
    server.record(answer(at(110, 0), at(110, 500_000_000)));
    assert_eq!(
        server.drift,
        Some(Drift {
            current_diff: span(0, 500_000_000),
            last_diff: span(1, 0),
            elapsed: span(11, 500_000_000),
        })
    );
}

#[test]
fn drift_stays_where_no_time_has_gone_by() {
    let mut server = NtpServerInfo::default();
    server.record(answer(at(100, 0), at(99, 0)));
    server.record(answer(at(110, 0), at(110, 0)));
    let drift = server.drift;
    assert!(drift.is_some());
    server.record(answer(at(111, 0), at(110, 0)));
    assert_eq!(server.drift, drift);
    server.record(answer(at(112, 0), at(50, 0)));
    assert_eq!(server.drift, drift);
    assert_eq!(server.last_updated, Some(at(50, 0)));
}

#[test]
fn failure_clears_what_was_known() {
    let mut server = NtpServerInfo::default();
    server.record(answer(at(100, 0), at(99, 0)));
    server.record(answer(at(110, 0), at(110, 0)));
    let drift = server.drift;
    server.record(failure());
    assert_eq!(server.error, Some("Response timeout".to_string()));
    assert_eq!(server.current_time, None);
    assert_eq!(server.time_diff, None);
    assert_eq!(server.stratum, None);
    assert_eq!(server.drift, drift);
    assert_eq!(server.last_updated, Some(at(110, 0)));
}

#[test]
fn answer_after_failure_has_no_drift() {
    let mut server = NtpServerInfo::default();
    server.record(answer(at(100, 0), at(99, 0)));
    server.record(answer(at(110, 0), at(110, 0)));
    server.record(failure());
    server.record(answer(at(120, 0), at(120, 0)));
    assert_eq!(server.drift, None);
    assert_eq!(server.error, None);
}

#[test]
fn names_from_input() {
    assert_eq!(
        parse_server_names("  time.google.com \r\n\n\t\npool.ntp.org\n129.6.15.28"),
        vec!["time.google.com", "pool.ntp.org", "129.6.15.28"]
    );
    assert!(parse_server_names(" \n\t\r\n").is_empty());
    assert!(parse_server_names("").is_empty());
}

#[test]
fn servers_from_names() {
    let servers = server_list(
        vec!["a".to_string(), "b".to_string()],
        vec![Some("10.0.0.1".to_string()), None],
    );
    assert_eq!(servers.len(), 2);
    assert_eq!((servers[0].name.as_str(), servers[0].ip.as_str()), ("a", "10.0.0.1"));
    assert_eq!((servers[1].name.as_str(), servers[1].ip.as_str()), ("b", "b"));
    assert_eq!(servers[1].last_updated, None);
    assert_eq!(servers[1].clone(), servers[1]);
}

#[test]
fn resolving() {
    assert_eq!(resolve_hostname("10.0.0.1", true, None), Some("10.0.0.1".to_string()));
    assert_eq!(
        resolve_hostname("a", false, Some("10.0.0.2".to_string())),
        Some("10.0.0.2".to_string())
    );
    assert_eq!(resolve_hostname("a", false, None), None);
}

#[test]
fn resolving_settles() {
    let address = resolve_hostname("a", false, Some("10.0.0.2".to_string())).unwrap();
    let other = Some("10.0.0.3".to_string());
    assert_eq!(resolve_hostname(&address, true, other), Some(address));
}
