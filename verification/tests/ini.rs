use ntp_monitor::ini::{parse_ini, render_ini};
use ntp_monitor::server::NtpServerInfo;
use ntp_monitor::settings::Settings;

fn server(name: &str) -> NtpServerInfo {
    NtpServerInfo::new(name.to_string(), None)
}

#[test]
fn rendered_text() {
    let servers = vec![server("time.google.com"), server("pool.ntp.org")];
    let settings = Settings { update_frequency_seconds: 30, timezone: "JST".to_string() };
    assert_eq!(
        render_ini(&servers, &settings).unwrap(),
        "[servers]\nserver1 = time.google.com\nserver2 = pool.ntp.org\n\n[settings]\n\
         update_frequency_seconds = 30\ntimezone = JST\n"
    );
}

#[test]
fn nothing_to_render_without_servers() {
    assert_eq!(render_ini(&Vec::new(), &Settings::default()), None);
}

#[test]
fn rendered_text_reads_back() {
    let names = ["a", "b = c", "[x]", "# y", "10.0.0.1", "with space", "\u{e9}t\u{e9}", "", "k", "l", "m"];
    let servers: Vec<NtpServerInfo> = names.iter().map(|name| server(name)).collect();
    let settings = Settings { update_frequency_seconds: 300, timezone: "A = B".to_string() };
    let config = parse_ini(&render_ini(&servers, &settings).unwrap());
    assert_eq!(config.servers, names);
    assert_eq!(config.update_frequency_seconds, Some(300));
    assert_eq!(config.timezone, Some("A = B".to_string()));
}

#[test]
fn read_back_clamps_frequency() {
    let servers = vec![server("a")];
    let settings = Settings { update_frequency_seconds: 1, timezone: "UTC".to_string() };
    let config = parse_ini(&render_ini(&servers, &settings).unwrap());
    assert_eq!(config.update_frequency_seconds, Some(5));
}

#[test]
fn empty_file() {
    let config = parse_ini("");
    assert!(config.servers.is_empty());
    assert_eq!(config.update_frequency_seconds, None);
    assert_eq!(config.timezone, None);
}

#[test]
fn comments_blank_lines_and_white_space() {
    let config = parse_ini(
        "# comment\r\n; other\r\n\r\n  [servers]  \r\n\tserver1=  a  \r\n server = b\r\nserverless = c\r\nnoise\r\n",
    );
    assert_eq!(config.servers, vec!["a", "b", "c"]);
}

#[test]
fn entries_count_only_in_their_section() {
    let config = parse_ini(
        "server1 = a\ntimezone = X\n[settings]\nserver2 = b\n[servers]\ntimezone = Y\nhost = c\n",
    );
    assert!(config.servers.is_empty());
    assert_eq!(config.timezone, None);
}

#[test]
fn section_names_are_exact() {
    let config = parse_ini("[ servers ]\nserver1 = a\n[Servers]\nserver1 = b\n[]\nserver1 = c\n[servers\nserver1 = d");
    assert!(config.servers.is_empty());
}

#[test]
fn value_starts_after_the_first_equals_sign() {
    let config = parse_ini("[servers]\nserver1 = a=b\nserver2 =\n");
    assert_eq!(config.servers, vec!["a=b", ""]);
}

#[test]
fn frequency_is_clamped() {
    let read = |value: &str| {
        parse_ini(&format!("[settings]\nupdate_frequency_seconds = {}\n", value))
            .update_frequency_seconds
    };
    assert_eq!(read("4"), Some(5));
    assert_eq!(read("5"), Some(5));
    assert_eq!(read("60"), Some(60));
    assert_eq!(read("300"), Some(300));
    assert_eq!(read("301"), Some(300));
    assert_eq!(read("+7"), Some(7));
    assert_eq!(read("007"), Some(7));
    assert_eq!(read("18446744073709551615"), Some(300));
}

#[test]
fn frequency_that_is_no_number_is_ignored() {
    let config = parse_ini(
        "[settings]\nupdate_frequency_seconds = 20\nupdate_frequency_seconds = x\n\
         update_frequency_seconds = -6\nupdate_frequency_seconds = +\nupdate_frequency_seconds =\n\
         update_frequency_seconds = 1.5\nupdate_frequency_seconds = 18446744073709551616\n",
    );
    assert_eq!(config.update_frequency_seconds, Some(20));
}

#[test]
fn later_settings_win() {
    let config = parse_ini("[settings]\ntimezone = A\ntimezone = B\n[x]\n[settings]\ntimezone = C");
    assert_eq!(config.timezone, Some("C".to_string()));
}
