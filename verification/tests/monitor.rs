use ntp_monitor::monitor::{AppState, NtpMonitorApp, TaskCommand, WindowEvent};
use ntp_monitor::server::{NtpServerInfo, Reply};
use ntp_monitor::settings::Settings;
use ntp_monitor::task::{MonitorTask, TaskAction, TaskEvent, TaskStage};
use ntp_monitor::time::TimeSpan;

fn names(app: &NtpMonitorApp) -> Vec<String> {
    app.servers.iter().map(|server| server.name.clone()).collect()
}

fn start(frequency: u64) -> TaskCommand {
    TaskCommand::Start { task: MonitorTask::new(frequency) }
}

fn restart(frequency: u64) -> TaskCommand {
    TaskCommand::Restart { task: MonitorTask::new(frequency) }
}

fn at(secs: u64) -> TimeSpan {
    TimeSpan { secs, nanos: 0 }
}

fn loaded() -> NtpMonitorApp {
    let mut app = NtpMonitorApp::default();
    app.load_servers_from_ini(
        Some(
            "[servers]\nserver1 = a\nserver2 = b\n\
             [settings]\nupdate_frequency_seconds = 60\ntimezone = JST\n",
        ),
        vec![Some("10.0.0.1".to_string()), None],
    );
    app
}

#[test]
fn default_state() {
    let app = NtpMonitorApp::default();
    assert_eq!(app.state, AppState::ServerInput);
    assert_eq!(app.server_input, "");
    assert!(app.servers.is_empty());
    assert_eq!(
        app.settings,
        Settings { update_frequency_seconds: 10, timezone: "UTC".to_string() }
    );
    assert_eq!(app.temp_settings, app.settings);
    assert_eq!(app.last_update_time, None);
    assert!(!app.monitoring);
}

#[test]
fn loading() {
    let app = loaded();
    assert_eq!(names(&app), vec!["a", "b"]);
    assert_eq!(app.servers[0].ip, "10.0.0.1");
    assert_eq!(app.servers[1].ip, "b");
    assert_eq!(
        app.settings,
        Settings { update_frequency_seconds: 60, timezone: "JST".to_string() }
    );
    assert_eq!(app.temp_settings, app.settings);
    assert_eq!(app.state, AppState::ServerInput);
}

#[test]
fn loading_a_file_without_servers() {
    let mut app = loaded();
    app.load_servers_from_ini(Some("[settings]\ntimezone = EST\n"), Vec::new());
    assert_eq!(names(&app), vec!["a", "b"]);
    assert_eq!(
        app.settings,
        Settings { update_frequency_seconds: 60, timezone: "EST".to_string() }
    );
}

#[test]
fn saved_state_loads_back() {
    let app = loaded();
    let contents = app.save_servers_to_ini().unwrap();
    let mut other = NtpMonitorApp::default();
    other.load_servers_from_ini(Some(&contents), vec![None, None]);
    assert_eq!(names(&other), names(&app));
    assert_eq!(other.settings, app.settings);
    assert_eq!(NtpMonitorApp::default().save_servers_to_ini(), None);
}

#[test]
fn entered_servers_are_watched() {
    let mut app = loaded();
    app.server_input = " c \n\nd\n".to_string();
    assert!(app.has_input());
    let command = app.parse_and_start_monitoring(vec![Some("10.0.0.3".to_string()), None]);
    assert_eq!(command, start(60));
    assert_eq!(app.state, AppState::Monitoring);
    assert!(app.monitoring);
    assert_eq!(names(&app), vec!["c", "d"]);
    assert_eq!(app.servers[0].ip, "10.0.0.3");
    assert_eq!(app.server_input, " c \n\nd\n");
}

#[test]
fn blank_input_is_no_input() {
    let mut app = NtpMonitorApp::default();
    assert!(!app.has_input());
    app.server_input = " \n\t".to_string();
    assert!(!app.has_input());
}

#[test]
fn loaded_servers_are_watched() {
    let mut app = loaded();
    assert_eq!(app.use_loaded_servers(), start(60));
    assert_eq!(app.state, AppState::Monitoring);
    assert!(app.monitoring);
    assert_eq!(names(&app), vec!["a", "b"]);
}

#[test]
fn adding_more_servers() {
    let mut app = loaded();
    app.server_input = "x".to_string();
    app.use_loaded_servers();
    assert_eq!(app.add_more_servers(), TaskCommand::Stop);
    assert_eq!(app.state, AppState::ServerInput);
    assert_eq!(app.server_input, "");
    assert!(!app.monitoring);
    assert_eq!(names(&app), vec!["a", "b"]);
}

#[test]
fn saving_settings() {
    let mut app = loaded();
    app.use_loaded_servers();
    assert_eq!(app.open_settings(), TaskCommand::Keep);
    assert_eq!(app.state, AppState::Settings);
    app.edit_frequency(1_000);
    app.edit_timezone("CET".to_string());
    assert_eq!(app.settings.update_frequency_seconds, 60);
    assert_eq!(app.save_settings(), restart(300));
    assert_eq!(app.state, AppState::Monitoring);
    assert!(app.monitoring);
    assert_eq!(
        app.settings,
        Settings { update_frequency_seconds: 300, timezone: "CET".to_string() }
    );
}

#[test]
fn cancelling_settings() {
    let mut app = loaded();
    app.use_loaded_servers();
    app.open_settings();
    app.edit_frequency(1);
    assert_eq!(app.temp_settings.update_frequency_seconds, 5);
    app.edit_timezone("CET".to_string());
    assert_eq!(app.cancel_settings(), TaskCommand::Keep);
    assert_eq!(app.state, AppState::Monitoring);
    assert_eq!(app.temp_settings, app.settings);
    assert_eq!(app.settings.update_frequency_seconds, 60);
}

#[test]
fn publishing_and_closing() {
    let mut app = loaded();
    app.use_loaded_servers();
    app.publish(vec![NtpServerInfo::new("z".to_string(), None)], at(3));
    assert_eq!(app.last_update_time, Some(at(3)));
    let (contents, command) = app.on_exit();
    assert_eq!(command, TaskCommand::Stop);
    assert_eq!(
        contents.unwrap(),
        "[servers]\nserver1 = z\n\n[settings]\nupdate_frequency_seconds = 60\ntimezone = JST\n"
    );
    assert!(!app.monitoring);
}

#[test]
fn loaded_state_saves_back() {
    let mut app = NtpMonitorApp::default();
    app.load_servers_from_ini(
        Some("[servers]\n server_x= b \n[settings]\nupdate_frequency_seconds=9999\n"),
        vec![None],
    );
    assert_eq!(
        app.save_servers_to_ini().unwrap(),
        "[servers]\nserver1 = b\n\n[settings]\nupdate_frequency_seconds = 300\ntimezone = UTC\n"
    );
}

#[test]
fn starting_on_blank_input() {
    let mut app = loaded();
    app.server_input = " \n\t".to_string();
    assert_eq!(app.start_monitoring(Vec::new()), TaskCommand::Keep);
    assert_eq!(app.state, AppState::ServerInput);
    assert_eq!(app.server_input, " \n\t");
    assert_eq!(names(&app), vec!["a", "b"]);
    assert!(!app.monitoring);
}

#[test]
fn starting_on_entered_servers() {
    let mut app = loaded();
    app.server_input = "c\n d".to_string();
    let lookups = vec![None, Some("10.0.0.4".to_string())];
    assert_eq!(app.start_monitoring(lookups), start(60));
    assert_eq!(app.state, AppState::Monitoring);
    assert!(app.monitoring);
    assert_eq!(names(&app), vec!["c", "d"]);
    assert_eq!(app.servers[1].ip, "10.0.0.4");
}

#[test]
fn events_in_their_dialogs() {
    let mut app = NtpMonitorApp::default();
    let text = "a".to_string();
    assert_eq!(app.update(WindowEvent::EnterServers { text }), TaskCommand::Keep);
    assert_eq!(app.server_input, "a");
    let lookups = vec![None];
    assert_eq!(app.update(WindowEvent::StartMonitoring { lookups }), start(10));
    assert_eq!(app.state, AppState::Monitoring);
    let servers = vec![NtpServerInfo::new("z".to_string(), None)];
    assert_eq!(app.update(WindowEvent::Publish { servers, at: at(7) }), TaskCommand::Keep);
    assert_eq!(app.last_update_time, Some(at(7)));
    assert_eq!(names(&app), vec!["z"]);
    assert_eq!(app.update(WindowEvent::OpenSettings), TaskCommand::Keep);
    assert_eq!(app.update(WindowEvent::EditFrequency { seconds: 301 }), TaskCommand::Keep);
    assert_eq!(app.update(WindowEvent::SelectTimezone { index: 8 }), TaskCommand::Keep);
    let edited = Settings { update_frequency_seconds: 300, timezone: "JST".to_string() };
    assert_eq!(app.temp_settings, edited);
    assert_eq!(app.update(WindowEvent::SaveSettings), restart(300));
    assert_eq!(app.settings, edited);
    assert_eq!(app.update(WindowEvent::OpenSettings), TaskCommand::Keep);
    assert_eq!(app.update(WindowEvent::EditFrequency { seconds: 4 }), TaskCommand::Keep);
    assert_eq!(app.update(WindowEvent::CancelSettings), TaskCommand::Keep);
    assert_eq!(app.settings, edited);
    assert_eq!(app.temp_settings, edited);
    assert_eq!(app.update(WindowEvent::AddMoreServers), TaskCommand::Stop);
    assert_eq!(app.last_update_time, Some(at(7)));
    assert_eq!(app.state, AppState::ServerInput);
    assert_eq!(app.update(WindowEvent::UseLoadedServers), start(300));
    assert_eq!(app.state, AppState::Monitoring);
}

#[test]
fn events_out_of_place_change_nothing() {
    let mut app = NtpMonitorApp::default();
    for event in [
        WindowEvent::UseLoadedServers,
        WindowEvent::StartMonitoring { lookups: Vec::new() },
        WindowEvent::AddMoreServers,
        WindowEvent::OpenSettings,
        WindowEvent::EditFrequency { seconds: 60 },
        WindowEvent::SelectTimezone { index: 1 },
        WindowEvent::SaveSettings,
        WindowEvent::CancelSettings,
    ] {
        assert_eq!(app.update(event), TaskCommand::Keep);
        assert_eq!(app, NtpMonitorApp::default());
    }

    let mut app = loaded();
    app.use_loaded_servers();
    app.open_settings();
    assert_eq!(app.update(WindowEvent::SelectTimezone { index: 9 }), TaskCommand::Keep);
    assert_eq!(app.temp_settings, app.settings);
    let text = "x".to_string();
    assert_eq!(app.update(WindowEvent::EnterServers { text }), TaskCommand::Keep);
    assert_eq!(app.server_input, "");
    assert_eq!(app.update(WindowEvent::UseLoadedServers), TaskCommand::Keep);
    assert_eq!(app.update(WindowEvent::AddMoreServers), TaskCommand::Keep);
    assert_eq!(app.state, AppState::Settings);
}

#[test]
fn loading_a_file_that_could_not_be_read() {
    let mut app = loaded();
    app.load_servers_from_ini(None, Vec::new());
    assert_eq!(app, loaded());
}

#[test]
fn new_task_follows_the_settings() {
    assert_eq!(NtpMonitorApp::default().new_task(), MonitorTask::new(10));
    let task = loaded().new_task();
    assert_eq!(task.update_frequency_seconds, 60);
    assert_eq!(task.stage, TaskStage::RoundCheck);
}

#[test]
fn countdown_from_the_last_update() {
    let mut app = loaded();
    assert_eq!(app.countdown(at(100)), "Initializing...");
    app.publish(Vec::new(), TimeSpan { secs: 100, nanos: 500_000_000 });
    assert_eq!(app.countdown(at(100)), "Next update in: 60s");
    assert_eq!(app.countdown(at(101)), "Next update in: 60s");
    assert_eq!(
        app.countdown(TimeSpan { secs: 101, nanos: 500_000_000 }),
        "Next update in: 59s"
    );
    assert_eq!(app.countdown(at(160)), "Next update in: 1s");
    assert_eq!(app.countdown(at(161)), "Updating...");
}

#[test]
fn serving_a_complete_round() {
    let mut app = loaded();
    let mut task = app.new_task();
    app.serve(&mut task, at(1));
    assert_eq!(task, app.new_task());
    task.advance(TaskEvent::StopFlag { stop: false });
    app.serve(&mut task, at(2));
    assert_eq!(app, loaded());
    for message in ["no", "none"] {
        task.advance(TaskEvent::StopFlag { stop: false });
        task.advance(TaskEvent::Replied { reply: Reply::Failure { message: message.to_string() } });
    }
    app.serve(&mut task, at(3));
    assert_eq!(names(&app), vec!["a", "b"]);
    assert_eq!(app.servers[0].ip, "10.0.0.1");
    assert_eq!(app.servers[0].error, Some("no".to_string()));
    assert_eq!(app.servers[1].error, Some("none".to_string()));
    assert_eq!(app.last_update_time, Some(at(3)));
    assert_eq!(task.stage, TaskStage::NapCheck { remaining: 60_000 });
}

#[test]
fn serving_a_round_that_is_broken_off() {
    let mut app = loaded();
    let mut task = app.new_task();
    task.advance(TaskEvent::StopFlag { stop: false });
    app.serve(&mut task, at(2));
    task.advance(TaskEvent::StopFlag { stop: false });
    task.advance(TaskEvent::Replied { reply: Reply::Failure { message: "no".to_string() } });
    task.advance(TaskEvent::StopFlag { stop: true });
    app.serve(&mut task, at(3));
    assert_eq!(task.action(), TaskAction::Exit);
    assert_eq!(app, loaded());
}
