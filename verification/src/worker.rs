//! The thread of the task in the background, as the window starts and ends it.

use vstd::prelude::*;

use crate::clock;
use crate::monitor;
use crate::monitor::{AppState, NtpMonitorApp, TaskCommand, WindowEvent};
use crate::task::MonitorTask;

verus! {

/// What is done to the thread, and to the flag that tells its task to stop.
#[derive(Debug, PartialEq, Eq)]
pub enum ThreadStep {
    /// The flag is raised.
    RaiseStopFlag,
    /// The thread is waited for, if there is one.
    Join,
    /// The flag is taken down.
    ClearStopFlag,
    /// A thread starts that runs `task`.
    Spawn { task: MonitorTask },
}

impl TaskCommand {
    /// The steps that carry out the command, one after the other.
    pub open spec fn step_list(self) -> Seq<ThreadStep> {
        match self {
            TaskCommand::Keep => seq![],
            TaskCommand::Start { task } => seq![ThreadStep::Spawn { task }],
            TaskCommand::Stop => seq![
                ThreadStep::RaiseStopFlag,
                ThreadStep::Join,
                ThreadStep::ClearStopFlag,
            ],
            TaskCommand::Restart { task } => seq![
                ThreadStep::RaiseStopFlag,
                ThreadStep::Join,
                ThreadStep::ClearStopFlag,
                ThreadStep::Spawn { task },
            ],
        }
    }

    /// The steps that carry out the command, one after the other.
    pub fn steps(self) -> (r: Vec<ThreadStep>)
        ensures
            r@ == self.step_list(),
    {
        match self {
            TaskCommand::Keep => Vec::new(),
            TaskCommand::Start { task } => vec![ThreadStep::Spawn { task }],
            TaskCommand::Stop => vec![
                ThreadStep::RaiseStopFlag,
                ThreadStep::Join,
                ThreadStep::ClearStopFlag,
            ],
            TaskCommand::Restart { task } => vec![
                ThreadStep::RaiseStopFlag,
                ThreadStep::Join,
                ThreadStep::ClearStopFlag,
                ThreadStep::Spawn { task },
            ],
        }
    }
}

/// The window's side of the background: the task whose thread it holds the handle of, as that
/// task was when it started, whether the stop flag is raised, and how many tasks are alive.
pub struct Worker {
    pub handle: Option<MonitorTask>,
    pub stop_flag: bool,
    pub alive: nat,
}

impl Worker {
    /// No task, and no flag.
    pub open spec fn idle() -> Worker {
        Worker { handle: None, stop_flag: false, alive: 0 }
    }

    /// The flag is down, and the one task that may be alive is the one whose handle is held.
    pub open spec fn wf(self) -> bool {
        &&& !self.stop_flag
        &&& self.alive == if self.handle is Some {
            1nat
        } else {
            0nat
        }
    }

    /// The background after a step. Waiting for a thread ends its task only while the flag is
    /// raised. A thread that starts takes the place of the one whose handle was held, whose
    /// task lives on.
    pub open spec fn after(self, step: ThreadStep) -> Worker {
        match step {
            ThreadStep::RaiseStopFlag => Worker { stop_flag: true, ..self },
            ThreadStep::Join => if self.handle is Some && self.stop_flag {
                Worker { handle: None, alive: (self.alive - 1) as nat, ..self }
            } else {
                self
            },
            ThreadStep::ClearStopFlag => Worker { stop_flag: false, ..self },
            ThreadStep::Spawn { task } => Worker {
                handle: Some(task),
                alive: self.alive + 1,
                ..self
            },
        }
    }

    /// The background after `steps`, one after the other.
    pub open spec fn run(self, steps: Seq<ThreadStep>) -> Worker
        decreases steps.len(),
    {
        if steps.len() == 0 {
            self
        } else {
            self.after(steps[0]).run(steps.drop_first())
        }
    }

    /// The background after a command.
    pub open spec fn obey(self, command: TaskCommand) -> Worker {
        self.run(command.step_list())
    }
}

proof fn lemma_obey(worker: Worker, task: MonitorTask)
    ensures
        worker.obey(TaskCommand::Keep) == worker,
        worker.obey(TaskCommand::Start { task }) == worker.after(ThreadStep::Spawn { task }),
        worker.obey(TaskCommand::Stop) == worker.after(ThreadStep::RaiseStopFlag).after(
            ThreadStep::Join,
        ).after(ThreadStep::ClearStopFlag),
        worker.obey(TaskCommand::Restart { task }) == worker.obey(TaskCommand::Stop).obey(
            TaskCommand::Start { task },
        ),
{
    reveal_with_fuel(Worker::run, 5);
}

/// Stopping takes the handle away and leaves the flag down. The task whose handle was held has
/// ended, and no other. Stopping once more changes nothing.
pub proof fn stop_ends_the_held_task(worker: Worker)
    requires
        worker.handle is Some ==> worker.alive > 0,
    ensures
        ({
            let stopped = worker.obey(TaskCommand::Stop);
            &&& stopped.handle is None
            &&& !stopped.stop_flag
            &&& stopped.alive == worker.alive - if worker.handle is Some {
                1int
            } else {
                0int
            }
            &&& stopped.obey(TaskCommand::Stop) == stopped
        }),
        worker.wf() ==> worker.obey(TaskCommand::Stop) == Worker::idle(),
{
    lemma_obey(worker, MonitorTask::fresh(0));
    lemma_obey(worker.obey(TaskCommand::Stop), MonitorTask::fresh(0));
}

/// Restarting is stopping and starting, and leaves just the new task alive.
pub proof fn restart_leaves_one_task(worker: Worker, task: MonitorTask)
    requires
        worker.wf(),
    ensures
        worker.obey(TaskCommand::Restart { task }) == worker.obey(TaskCommand::Stop).obey(
            TaskCommand::Start { task },
        ),
        worker.obey(TaskCommand::Restart { task }) == (Worker {
            handle: Some(task),
            stop_flag: false,
            alive: 1,
        }),
{
    lemma_obey(worker, task);
    lemma_obey(worker.obey(TaskCommand::Stop), task);
}

/// The window and its background.
pub struct Session {
    pub app: NtpMonitorApp,
    pub worker: Worker,
}

impl Session {
    /// The settings in force and those under edit are well-formed, which bounds the seconds
    /// between two rounds. The stop flag is down, and at most one task is alive. The handle of
    /// a thread is held just while the window shows no server input, and its task asks the
    /// servers as often as the settings in force say.
    pub open spec fn settled(self) -> bool {
        &&& self.app.settings.wf()
        &&& self.app.temp_settings.wf()
        &&& self.worker.wf()
        &&& self.worker.handle is Some <==> self.app.state != AppState::ServerInput
        &&& self.worker.handle matches Some(task) ==> task == self.app.next_task()
        &&& self.app.monitoring == (self.worker.handle is Some)
    }

    /// An event leads from this session to `next`, the command of the window being obeyed.
    pub open spec fn leads_to(self, event: WindowEvent, next: Session) -> bool {
        exists|command: TaskCommand| #[trigger]
            self.app.leads_to(event, command, next.app) && next.worker == self.worker.obey(command)
    }
}

/// "Save" puts the edited settings in force, and leaves one task alive: a new one that asks the
/// servers as often as those settings say. The servers and the server input stay as they are.
pub proof fn saving_restarts_with_edited_settings(session: Session, next: Session)
    requires
        session.settled(),
        session.app.state == AppState::Settings,
        session.leads_to(WindowEvent::SaveSettings, next),
    ensures
        next.app == (NtpMonitorApp {
            state: AppState::Monitoring,
            settings: session.app.temp_settings,
            ..session.app
        }),
        next.worker == (Worker {
            handle: Some(
                MonitorTask::fresh(session.app.temp_settings.update_frequency_seconds),
            ),
            stop_flag: false,
            alive: 1,
        }),
{
    restart_leaves_one_task(session.worker, next.app.next_task());
}

/// Each of `events` leads from one of `sessions` to the next.
pub open spec fn is_run(sessions: Seq<Session>, events: Seq<WindowEvent>) -> bool {
    &&& sessions.len() == events.len() + 1
    &&& forall|i: int|
        #![trigger events[i]]
        0 <= i < events.len() ==> sessions[i].leads_to(events[i], sessions[i + 1])
}

proof fn lemma_event(session: Session, event: WindowEvent, next: Session)
    requires
        session.settled(),
        session.leads_to(event, next),
    ensures
        next.settled(),
{
    lemma_obey(session.worker, next.app.next_task());
    lemma_obey(session.worker.obey(TaskCommand::Stop), next.app.next_task());
    clock::common_timezones_distinct();
}

/// A well-formed window that shows the server input is settled as long as nothing runs in the
/// background.
pub proof fn first_window_is_settled(app: NtpMonitorApp)
    requires
        app.wf(),
        app.state == AppState::ServerInput,
    ensures
        (Session { app, worker: Worker::idle() }).settled(),
{
}

/// Whatever events come, in whatever order: in every session of a run that starts settled, the
/// seconds between two rounds stay in their range, the stop flag is down, at most one task is
/// alive, and a thread is held just while the window shows no server input. Its task is one that
/// asks the servers as often as the settings in force say.
pub proof fn run_stays_settled(sessions: Seq<Session>, events: Seq<WindowEvent>, i: int)
    requires
        is_run(sessions, events),
        sessions[0].settled(),
        0 <= i < sessions.len(),
    ensures
        sessions[i].settled(),
    decreases i,
{
    if i > 0 {
        run_stays_settled(sessions, events, i - 1);
        assert(0 <= i - 1 < events.len());
        let event = events[i - 1];
        lemma_event(sessions[i - 1], event, sessions[i]);
    }
}

/// In every session of a run that starts with a well-formed window, the window is well-formed,
/// if the lists that the task hands over are.
pub proof fn run_keeps_window_wf(sessions: Seq<Session>, events: Seq<WindowEvent>, i: int)
    requires
        is_run(sessions, events),
        sessions[0].app.wf(),
        forall|j: int|
            0 <= j < events.len() ==> monitor::event_wf(#[trigger] events[j]),
        0 <= i < sessions.len(),
    ensures
        sessions[i].app.wf(),
    decreases i,
{
    if i > 0 {
        run_keeps_window_wf(sessions, events, i - 1);
        let event = events[i - 1];
        let app = sessions[i - 1].app;
        let next = sessions[i].app;
        assert(sessions[i - 1].leads_to(event, sessions[i]));
        let command = choose|command: TaskCommand| #[trigger]
            app.leads_to(event, command, next) && sessions[i].worker == sessions[i - 1].worker.obey(
                command,
            );
        monitor::events_keep_wf(app, event, command, next);
    }
}

/// Nothing is done to keep a task, and starting one spawns that very task. Stopping raises the
/// flag, waits, and takes the flag down, in this order; restarting does so and spawns the new
/// task last.
pub proof fn commands_are_carried_out_in_order(command: TaskCommand, steps: Vec<ThreadStep>)
    requires
        call_ensures(TaskCommand::steps, (command,), steps),
    ensures
        steps@ == command.step_list(),
        match command {
            TaskCommand::Keep => steps@.len() == 0,
            TaskCommand::Start { task } => steps@.len() == 1 && steps@[0] == (ThreadStep::Spawn {
                task,
            }),
            TaskCommand::Stop => steps@.len() == 3 && steps@[0] is RaiseStopFlag && steps@[1]
                is Join && steps@[2] is ClearStopFlag,
            TaskCommand::Restart { task } => steps@.len() == 4 && steps@[0] is RaiseStopFlag
                && steps@[1] is Join && steps@[2] is ClearStopFlag && steps@[3] == (
            ThreadStep::Spawn { task }),
        },
{
}

} // verus!
