use ntp_monitor::monitor::{AppState, NtpMonitorApp, TaskCommand, WindowEvent};
use ntp_monitor::task::MonitorTask;
use ntp_monitor::worker::ThreadStep;

/// The frequency of the task whose handle is held, the stop flag and the tasks that are alive.
#[derive(Clone, Copy, Debug, PartialEq)]
struct Background {
    handle: Option<u64>,
    stop_flag: bool,
    alive: usize,
}

fn obey(background: &mut Background, command: TaskCommand) {
    for step in command.steps() {
        match step {
            ThreadStep::RaiseStopFlag => background.stop_flag = true,
            ThreadStep::Join => {
                if background.handle.is_some() {
                    assert!(background.stop_flag);
                    background.handle = None;
                    background.alive -= 1;
                }
            }
            ThreadStep::ClearStopFlag => background.stop_flag = false,
            ThreadStep::Spawn { task } => {
                background.handle = Some(task.update_frequency_seconds);
                background.alive += 1;
            }
        }
    }
}

const IDLE: Background = Background { handle: None, stop_flag: false, alive: 0 };

fn busy(frequency: u64) -> Background {
    Background { handle: Some(frequency), stop_flag: false, alive: 1 }
}

#[test]
fn steps_of_commands() {
    let stop = || vec![ThreadStep::RaiseStopFlag, ThreadStep::Join, ThreadStep::ClearStopFlag];
    let spawn = || ThreadStep::Spawn { task: MonitorTask::new(7) };
    assert_eq!(TaskCommand::Keep.steps(), Vec::new());
    assert_eq!(TaskCommand::Start { task: MonitorTask::new(7) }.steps(), vec![spawn()]);
    assert_eq!(TaskCommand::Stop.steps(), stop());
    let mut restart = stop();
    restart.push(spawn());
    assert_eq!(TaskCommand::Restart { task: MonitorTask::new(7) }.steps(), restart);
}

#[test]
fn stopping_twice() {
    let mut background = IDLE;
    obey(&mut background, TaskCommand::Start { task: MonitorTask::new(7) });
    assert_eq!(background, busy(7));
    obey(&mut background, TaskCommand::Stop);
    assert_eq!(background, IDLE);
    obey(&mut background, TaskCommand::Stop);
    assert_eq!(background, IDLE);
}

#[test]
fn restarting() {
    let mut background = busy(7);
    obey(&mut background, TaskCommand::Restart { task: MonitorTask::new(8) });
    assert_eq!(background, busy(8));
}

#[test]
fn a_run_holds_at_most_one_task() {
    let mut app = NtpMonitorApp::default();
    let mut background = IDLE;
    for event in [
        WindowEvent::UseLoadedServers,
        WindowEvent::StartMonitoring { lookups: Vec::new() },
        WindowEvent::EnterServers { text: "a".to_string() },
        WindowEvent::StartMonitoring { lookups: vec![None] },
        WindowEvent::StartMonitoring { lookups: vec![None] },
        WindowEvent::OpenSettings,
        WindowEvent::EditFrequency { seconds: 0 },
        WindowEvent::SaveSettings,
        WindowEvent::OpenSettings,
        WindowEvent::CancelSettings,
        WindowEvent::AddMoreServers,
        WindowEvent::AddMoreServers,
        WindowEvent::UseLoadedServers,
        WindowEvent::UseLoadedServers,
    ] {
        let command = app.update(event);
        obey(&mut background, command);
        let frequency = app.settings.update_frequency_seconds;
        let idle = app.state == AppState::ServerInput;
        assert_eq!(background, if idle { IDLE } else { busy(frequency) });
        assert!((5..=300).contains(&app.settings.update_frequency_seconds));
        assert!((5..=300).contains(&app.temp_settings.update_frequency_seconds));
    }
    assert_eq!(app.settings.update_frequency_seconds, 5);
}
