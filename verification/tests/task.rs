use ntp_monitor::server::{NtpServerInfo, Reply};
use ntp_monitor::task::{copy_servers, MonitorTask, TaskAction, TaskEvent, TaskStage};
use ntp_monitor::time::Timestamp;

fn servers(count: usize) -> Vec<NtpServerInfo> {
    (0..count)
        .map(|i| NtpServerInfo::new(format!("name{}", i), Some(format!("10.0.0.{}", i))))
        .collect()
}

fn go(task: &mut MonitorTask) {
    assert_eq!(task.action(), TaskAction::CheckStop);
    task.advance(TaskEvent::StopFlag { stop: false });
}

fn answered(time: i64) -> Reply {
    let time = Timestamp { secs: time, nanos: 0 };
    Reply::Answer { time, stratum: 1, local_time: time }
}

#[test]
fn round_asks_every_server_in_turn() {
    let mut task = MonitorTask::new(5);
    go(&mut task);
    assert_eq!(task.action(), TaskAction::TakeSnapshot);
    task.advance(TaskEvent::Servers { servers: servers(2) });

    go(&mut task);
    assert_eq!(task.action(), TaskAction::Ask { ip: "10.0.0.0".to_string() });
    task.advance(TaskEvent::Replied { reply: answered(7) });
    go(&mut task);
    assert_eq!(task.action(), TaskAction::Ask { ip: "10.0.0.1".to_string() });
    task.advance(TaskEvent::Replied { reply: Reply::Failure { message: "no".to_string() } });

    let mut expected = servers(2);
    expected[0].record(answered(7));
    expected[1].record(Reply::Failure { message: "no".to_string() });
    assert_eq!(task.action(), TaskAction::Publish { servers: expected });
}

#[test]
fn round_without_servers() {
    let mut task = MonitorTask::new(5);
    go(&mut task);
    task.advance(TaskEvent::Servers { servers: Vec::new() });
    assert_eq!(task.action(), TaskAction::Publish { servers: Vec::new() });
}

#[test]
fn sleep_comes_in_naps() {
    let mut task = MonitorTask::new(5);
    go(&mut task);
    task.advance(TaskEvent::Servers { servers: Vec::new() });
    task.advance(TaskEvent::Published);
    let mut slept = 0;
    let mut naps = 0;
    loop {
        go(&mut task);
        match task.action() {
            TaskAction::Sleep { millis } => {
                assert_eq!(millis, 500);
                slept += millis;
                naps += 1;
                task.advance(TaskEvent::Slept);
            }
            other => {
                assert_eq!(other, TaskAction::TakeSnapshot);
                break;
            }
        }
    }
    assert_eq!((slept, naps), (5_000, 10));
}

#[test]
fn last_nap_may_be_shorter() {
    let mut task = MonitorTask::new(1);
    task.stage = TaskStage::Napping { remaining: 300 };
    assert_eq!(task.action(), TaskAction::Sleep { millis: 300 });
    task.advance(TaskEvent::Slept);
    assert_eq!(task.stage, TaskStage::RoundCheck);
}

#[test]
fn stop_before_a_round() {
    let mut task = MonitorTask::new(5);
    task.advance(TaskEvent::StopFlag { stop: true });
    assert_eq!(task.action(), TaskAction::Exit);
    task.advance(TaskEvent::StopFlag { stop: false });
    assert_eq!(task.action(), TaskAction::Exit);
}

#[test]
fn stop_during_a_round_hands_nothing_over() {
    let mut task = MonitorTask::new(5);
    go(&mut task);
    task.advance(TaskEvent::Servers { servers: servers(2) });
    go(&mut task);
    task.advance(TaskEvent::Replied { reply: answered(7) });
    assert_eq!(task.action(), TaskAction::CheckStop);
    task.advance(TaskEvent::StopFlag { stop: true });
    assert_eq!(task.action(), TaskAction::Exit);
}

#[test]
fn stop_while_asleep() {
    let mut task = MonitorTask::new(5);
    go(&mut task);
    task.advance(TaskEvent::Servers { servers: Vec::new() });
    task.advance(TaskEvent::Published);
    task.advance(TaskEvent::StopFlag { stop: true });
    assert_eq!(task.action(), TaskAction::Exit);
}

#[test]
fn events_that_nobody_waits_for() {
    let mut task = MonitorTask::new(5);
    task.advance(TaskEvent::Slept);
    task.advance(TaskEvent::Published);
    assert_eq!(task.stage, TaskStage::RoundCheck);
}

#[test]
fn copies_are_equal() {
    let mut list = servers(3);
    list[1].record(Reply::Failure { message: "no".to_string() });
    assert_eq!(copy_servers(&list), list);
}

#[test]
fn handed_over_list_is_complete() {
    let mut task = MonitorTask::new(5);
    task.advance(TaskEvent::Slept);
    go(&mut task);
    task.advance(TaskEvent::Replied { reply: answered(1) });
    task.advance(TaskEvent::Servers { servers: servers(2) });
    task.advance(TaskEvent::Servers { servers: servers(3) });
    go(&mut task);
    task.advance(TaskEvent::StopFlag { stop: true });
    task.advance(TaskEvent::Replied { reply: answered(7) });
    task.advance(TaskEvent::Replied { reply: answered(8) });
    go(&mut task);
    task.advance(TaskEvent::Replied { reply: answered(9) });
    let mut expected = servers(2);
    expected[0].record(answered(7));
    expected[1].record(answered(9));
    assert_eq!(task.action(), TaskAction::Publish { servers: expected });
}
