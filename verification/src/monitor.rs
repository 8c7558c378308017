//! The state of the monitor's window, and what each of its buttons does to it.

use vstd::prelude::*;

use crate::clock;
use crate::clock::get_common_timezones;
use crate::display;
use crate::display::countdown_label;
use crate::ini;
use crate::ini::{parse_ini, render_ini};
use crate::number;
use crate::number::clamp;
use crate::server;
use crate::server::{parse_server_names, server_list, NtpServerInfo, Reply};
use crate::settings::{Settings, MAX_UPDATE_SECONDS, MIN_UPDATE_SECONDS};
use crate::task;
use crate::task::{copy_servers, EventModel, MonitorTask, StageModel, TaskAction, TaskEvent};
use crate::text;
use crate::text::{chars_of, trimmed};
use crate::time;
use crate::time::TimeSpan;

verus! {

/// What the window shows.
#[derive(Clone, Copy, Debug, PartialEq, Eq, Structural)]
pub enum AppState {
    /// The dialog in which servers are entered.
    ServerInput,
    /// The table of the servers.
    Monitoring,
    /// The settings dialog.
    Settings,
}

/// What has to happen to the task in the background.
#[derive(Debug, PartialEq, Eq)]
pub enum TaskCommand {
    /// Nothing.
    Keep,
    /// This one starts.
    Start { task: MonitorTask },
    /// It ends.
    Stop,
    /// It ends, and this one starts.
    Restart { task: MonitorTask },
}

/// What can happen to the window.
#[derive(Debug)]
pub enum WindowEvent {
    /// The text of the server input changes.
    EnterServers { text: String },
    /// "Use Loaded Servers" is pressed.
    UseLoadedServers,
    /// "Start Monitoring" is pressed; these addresses were found for the servers entered.
    StartMonitoring { lookups: Vec<Option<String>> },
    /// "Add More Servers" is pressed.
    AddMoreServers,
    /// "Settings" is pressed.
    OpenSettings,
    /// The slider of the settings dialog moves.
    EditFrequency { seconds: u64 },
    /// A time zone is picked from those on offer.
    SelectTimezone { index: usize },
    /// "Save" is pressed.
    SaveSettings,
    /// "Cancel" is pressed.
    CancelSettings,
    /// The task in the background hands over its list, at this time on the clock of
    /// `last_update_time`.
    Publish { servers: Vec<NtpServerInfo>, at: TimeSpan },
}

/// The state of the window.
#[derive(Debug, PartialEq, Eq)]
pub struct NtpMonitorApp {
    /// What the window shows.
    pub state: AppState,
    /// The servers as the user enters them.
    pub server_input: String,
    /// The servers under watch.
    pub servers: Vec<NtpServerInfo>,
    /// The settings in force.
    pub settings: Settings,
    /// The settings as the settings dialog edits them.
    pub temp_settings: Settings,
    /// When a list was last handed over, on a clock that counts up from when the program
    /// started.
    pub last_update_time: Option<TimeSpan>,
    /// Tells whether a task runs in the background.
    pub monitoring: bool,
}

/// Every server of the list is well-formed, and a settings file can carry its name.
pub open spec fn servers_wf(servers: Seq<NtpServerInfo>) -> bool {
    &&& server::all_wf(servers)
    &&& forall|i: int| 0 <= i < servers.len() ==> text::is_clean((#[trigger] servers[i]).name@)
}

/// The settings that a file leaves in force: what it says, and what was set before otherwise.
pub open spec fn merged_settings(old: Settings, ini: ini::Ini) -> (u64, Seq<char>) {
    (
        match ini.frequency {
            Some(n) => n,
            None => old.update_frequency_seconds,
        },
        match ini.timezone {
            Some(timezone) => timezone,
            None => old.timezone@,
        },
    )
}

/// The whole seconds from the last update to `now`, if there was one.
pub open spec fn elapsed_seconds(last_update_time: Option<TimeSpan>, now: TimeSpan) -> Option<u64> {
    match last_update_time {
        Some(last) => Some(time::secs_between(last, now) as u64),
        None => None,
    }
}

/// The list that an event of the window brings is well-formed, and so is its time.
pub open spec fn event_wf(event: WindowEvent) -> bool {
    event matches WindowEvent::Publish { servers, at } ==> servers_wf(servers@) && at.wf()
}

impl NtpMonitorApp {
    /// The servers, the settings and the time of the last update are well-formed, and a task runs in the background just
    /// while the window shows no server input.
    pub open spec fn wf(self) -> bool {
        &&& servers_wf(self.servers@)
        &&& self.settings.wf()
        &&& self.temp_settings.wf()
        &&& self.last_update_time matches Some(last) ==> last.wf()
        &&& self.monitoring <==> self.state != AppState::ServerInput
    }

    /// A task that starts now: it asks the servers as often as the settings in force say.
    pub open spec fn next_task(self) -> MonitorTask {
        MonitorTask::fresh(self.settings.update_frequency_seconds)
    }

    /// What an event leads to, and what has to happen to the task then. An event that belongs
    /// to a dialog which the window does not show changes nothing. Nor does "Use Loaded
    /// Servers" without servers, "Start Monitoring" on blank input, or a time zone that is not
    /// on offer.
    pub open spec fn leads_to(
        self,
        event: WindowEvent,
        command: TaskCommand,
        next: NtpMonitorApp,
    ) -> bool {
        let ignored = command == TaskCommand::Keep && next == self;
        match event {
            WindowEvent::EnterServers { text } => if self.state == AppState::ServerInput {
                &&& command == TaskCommand::Keep
                &&& next == NtpMonitorApp { server_input: text, ..self }
            } else {
                ignored
            },
            WindowEvent::UseLoadedServers => if self.state == AppState::ServerInput
                && self.servers@.len() > 0 {
                &&& command == TaskCommand::Start { task: self.next_task() }
                &&& next == NtpMonitorApp { state: AppState::Monitoring, monitoring: true, ..self }
            } else {
                ignored
            },
            WindowEvent::StartMonitoring { lookups } => if self.state == AppState::ServerInput
                && text::trim(self.server_input@).len() > 0 {
                &&& command == TaskCommand::Start { task: self.next_task() }
                &&& server::are_entries(
                    next.servers@,
                    server::server_names(self.server_input@),
                    lookups@,
                )
                &&& next == NtpMonitorApp {
                    state: AppState::Monitoring,
                    monitoring: true,
                    servers: next.servers,
                    ..self
                }
            } else {
                ignored
            },
            WindowEvent::AddMoreServers => if self.state == AppState::Monitoring {
                &&& command == TaskCommand::Stop
                &&& next.server_input@ == Seq::<char>::empty()
                &&& next == NtpMonitorApp {
                    state: AppState::ServerInput,
                    monitoring: false,
                    server_input: next.server_input,
                    ..self
                }
            } else {
                ignored
            },
            WindowEvent::OpenSettings => if self.state == AppState::Monitoring {
                &&& command == TaskCommand::Keep
                &&& next == NtpMonitorApp {
                    state: AppState::Settings,
                    temp_settings: self.settings,
                    ..self
                }
            } else {
                ignored
            },
            WindowEvent::EditFrequency { seconds } => if self.state == AppState::Settings {
                &&& command == TaskCommand::Keep
                &&& next.temp_settings.update_frequency_seconds == number::clamped(
                    seconds as int,
                    MIN_UPDATE_SECONDS as int,
                    MAX_UPDATE_SECONDS as int,
                )
                &&& next == NtpMonitorApp {
                    temp_settings: Settings {
                        update_frequency_seconds: next.temp_settings.update_frequency_seconds,
                        ..self.temp_settings
                    },
                    ..self
                }
            } else {
                ignored
            },
            WindowEvent::SelectTimezone { index } => if self.state == AppState::Settings && index
                < clock::common_timezones().len() {
                &&& command == TaskCommand::Keep
                &&& next.temp_settings.timezone@ == clock::common_timezones()[index as int]
                &&& next == NtpMonitorApp {
                    temp_settings: Settings {
                        timezone: next.temp_settings.timezone,
                        ..self.temp_settings
                    },
                    ..self
                }
            } else {
                ignored
            },
            WindowEvent::SaveSettings => if self.state == AppState::Settings {
                &&& command == TaskCommand::Restart { task: next.next_task() }
                &&& next == NtpMonitorApp {
                    state: AppState::Monitoring,
                    settings: self.temp_settings,
                    monitoring: true,
                    ..self
                }
            } else {
                ignored
            },
            WindowEvent::CancelSettings => if self.state == AppState::Settings {
                &&& command == TaskCommand::Keep
                &&& next == NtpMonitorApp {
                    state: AppState::Monitoring,
                    temp_settings: self.settings,
                    ..self
                }
            } else {
                ignored
            },
            WindowEvent::Publish { servers, at } => {
                &&& command == TaskCommand::Keep
                &&& next == NtpMonitorApp { servers, last_update_time: Some(at), ..self }
            },
        }
    }

    /// Takes in what happens to the window.
    pub fn update(&mut self, event: WindowEvent) -> (r: TaskCommand)
        requires
            event matches WindowEvent::StartMonitoring { lookups } ==> lookups@.len()
                == server::server_names(old(self).server_input@).len(),
        ensures
            old(self).leads_to(event, r, *final(self)),
            old(self).wf() && event_wf(event) ==> final(self).wf(),
    {
        let state = self.state;
        match event {
            WindowEvent::EnterServers { text } => {
                if state == AppState::ServerInput {
                    self.server_input = text;
                }
                TaskCommand::Keep
            },
            WindowEvent::UseLoadedServers => {
                if state == AppState::ServerInput && self.servers.len() > 0 {
                    self.use_loaded_servers()
                } else {
                    TaskCommand::Keep
                }
            },
            WindowEvent::StartMonitoring { lookups } => {
                if state == AppState::ServerInput {
                    self.start_monitoring(lookups)
                } else {
                    TaskCommand::Keep
                }
            },
            WindowEvent::AddMoreServers => {
                if state == AppState::Monitoring {
                    self.add_more_servers()
                } else {
                    TaskCommand::Keep
                }
            },
            WindowEvent::OpenSettings => {
                if state == AppState::Monitoring {
                    self.open_settings()
                } else {
                    TaskCommand::Keep
                }
            },
            WindowEvent::EditFrequency { seconds } => {
                if state == AppState::Settings {
                    self.edit_frequency(seconds);
                }
                TaskCommand::Keep
            },
            WindowEvent::SelectTimezone { index } => {
                let timezones = get_common_timezones();
                proof {
                    clock::common_timezones_distinct();
                }
                assert(text::texts(timezones@).len() == timezones@.len());
                if state == AppState::Settings && index < timezones.len() {
                    assert(text::texts(timezones@)[index as int] == timezones@[index as int]@);
                    self.edit_timezone(timezones[index].clone());
                }
                TaskCommand::Keep
            },
            WindowEvent::SaveSettings => {
                if state == AppState::Settings {
                    self.save_settings()
                } else {
                    TaskCommand::Keep
                }
            },
            WindowEvent::CancelSettings => {
                if state == AppState::Settings {
                    self.cancel_settings()
                } else {
                    TaskCommand::Keep
                }
            },
            WindowEvent::Publish { servers, at } => {
                self.publish(servers, at);
                TaskCommand::Keep
            },
        }
    }

    /// Tells whether the user has entered anything.
    pub fn has_input(&self) -> (r: bool)
        ensures
            r == (text::trim(self.server_input@).len() > 0),
    {
        let chars = chars_of(self.server_input.as_str());
        trimmed(&chars).len() > 0
    }

    /// Takes over the servers and the settings that a file holds. `lookups` are the addresses
    /// found for its servers. A file without servers leaves the list as it is, and a file that
    /// could not be read leaves everything as it is.
    pub fn load_servers_from_ini(&mut self, contents: Option<&str>, lookups: Vec<Option<String>>)
        requires
            contents matches Some(contents) ==> lookups@.len() == ini::ini_of(
                contents@,
            ).servers.len(),
        ensures
            contents is None ==> *final(self) == *old(self),
            contents matches Some(contents) ==> {
                let said = ini::ini_of(contents@);
                &&& if said.servers.len() > 0 {
                    server::are_entries(final(self).servers@, said.servers, lookups@)
                } else {
                    final(self).servers == old(self).servers
                }
                &&& (
                    final(self).settings.update_frequency_seconds,
                    final(self).settings.timezone@,
                ) == merged_settings(old(self).settings, said)
                &&& *final(self) == (NtpMonitorApp {
                    servers: final(self).servers,
                    settings: final(self).settings,
                    temp_settings: final(self).settings,
                    ..*old(self)
                })
            },
            old(self).wf() ==> final(self).wf(),
    {
        let contents: &str = match contents {
            Some(contents) => contents,
            None => {
                return ;
            },
        };
        let config = parse_ini(contents);
        let ghost said = config@;
        if let Some(n) = config.update_frequency_seconds {
            self.settings.update_frequency_seconds = n;
        }
        if let Some(timezone) = config.timezone {
            self.settings.timezone = timezone;
        }
        if config.servers.len() > 0 {
            self.servers = server_list(config.servers, lookups);
        }
        self.temp_settings = self.settings.clone();
        proof {
            ini::ini_values_in_range(contents@);
            if said.servers.len() > 0 {
                assert forall|i: int| 0 <= i < self.servers@.len() implies text::is_clean(
                    (#[trigger] self.servers@[i]).name@,
                ) by {
                    assert(self.servers@[i].is_entry(said.servers[i], lookups@[i]));
                }
            }
        }
    }

    /// The file that keeps the servers and the settings, if there are servers to keep.
    pub fn save_servers_to_ini(&self) -> (r: Option<String>)
        ensures
            r is Some <==> self.servers@.len() > 0,
            r matches Some(contents) ==> contents@ == ini::ini_text(
                server::names(self.servers@),
                self.settings.update_frequency_seconds as nat,
                self.settings.timezone@,
            ),
    {
        render_ini(&self.servers, &self.settings)
    }

    /// "Use Loaded Servers": watches the servers that were loaded.
    pub fn use_loaded_servers(&mut self) -> (r: TaskCommand)
        ensures
            r == (TaskCommand::Start { task: old(self).next_task() }),
            *final(self) == (NtpMonitorApp {
                state: AppState::Monitoring,
                monitoring: true,
                ..*old(self)
            }),
            old(self).wf() ==> final(self).wf(),
    {
        self.state = AppState::Monitoring;
        self.start_monitoring_task()
    }

    /// "Start Monitoring": watches the servers that the user has entered, and does nothing
    /// where the input is blank. `lookups` are the addresses found for the servers.
    pub fn start_monitoring(&mut self, lookups: Vec<Option<String>>) -> (r: TaskCommand)
        requires
            lookups@.len() == server::server_names(old(self).server_input@).len(),
        ensures
            text::trim(old(self).server_input@).len() == 0 ==> r == TaskCommand::Keep
                && *final(self) == *old(self),
            text::trim(old(self).server_input@).len() > 0 ==> {
                &&& r == (TaskCommand::Start { task: old(self).next_task() })
                &&& server::are_entries(
                    final(self).servers@,
                    server::server_names(old(self).server_input@),
                    lookups@,
                )
                &&& *final(self) == (NtpMonitorApp {
                    state: AppState::Monitoring,
                    monitoring: true,
                    servers: final(self).servers,
                    ..*old(self)
                })
            },
            old(self).wf() ==> final(self).wf(),
    {
        if self.has_input() {
            self.parse_and_start_monitoring(lookups)
        } else {
            TaskCommand::Keep
        }
    }

    /// Watches the servers that the user has entered. `lookups` are the addresses found for
    /// them.
    pub fn parse_and_start_monitoring(&mut self, lookups: Vec<Option<String>>) -> (r: TaskCommand)
        requires
            lookups@.len() == server::server_names(old(self).server_input@).len(),
        ensures
            r == (TaskCommand::Start { task: old(self).next_task() }),
            server::are_entries(
                final(self).servers@,
                server::server_names(old(self).server_input@),
                lookups@,
            ),
            *final(self) == (NtpMonitorApp {
                state: AppState::Monitoring,
                monitoring: true,
                servers: final(self).servers,
                ..*old(self)
            }),
            old(self).wf() ==> final(self).wf(),
    {
        let names = parse_server_names(self.server_input.as_str());
        let ghost input = self.server_input@;
        self.servers = server_list(names, lookups);
        self.state = AppState::Monitoring;
        proof {
            assert forall|i: int| 0 <= i < self.servers@.len() implies text::is_clean(
                (#[trigger] self.servers@[i]).name@,
            ) by {
                server::server_names_clean(input, i);
                assert(self.servers@[i].is_entry(server::server_names(input)[i], lookups@[i]));
            }
        }
        self.start_monitoring_task()
    }

    /// A task that starts now: it asks the servers as often as the settings in force say.
    pub fn new_task(&self) -> (r: MonitorTask)
        ensures
            r == self.next_task(),
            r.update_frequency_seconds == self.settings.update_frequency_seconds,
            r.stage@ == StageModel::RoundCheck,
            r.stage@.wf(),
    {
        MonitorTask::new(self.settings.update_frequency_seconds)
    }

    /// Notes that a task runs in the background.
    pub fn start_monitoring_task(&mut self) -> (r: TaskCommand)
        ensures
            r == (TaskCommand::Start { task: old(self).next_task() }),
            *final(self) == (NtpMonitorApp { monitoring: true, ..*old(self) }),
    {
        self.monitoring = true;
        TaskCommand::Start { task: self.new_task() }
    }

    /// Notes that no task runs in the background any more.
    pub fn stop_monitoring(&mut self) -> (r: TaskCommand)
        ensures
            r == TaskCommand::Stop,
            *final(self) == (NtpMonitorApp { monitoring: false, ..*old(self) }),
    {
        self.monitoring = false;
        TaskCommand::Stop
    }

    /// Notes that another task runs in the background.
    pub fn restart_monitoring_with_new_settings(&mut self) -> (r: TaskCommand)
        ensures
            r == (TaskCommand::Restart { task: old(self).next_task() }),
            *final(self) == (NtpMonitorApp { monitoring: true, ..*old(self) }),
    {
        self.stop_monitoring();
        self.start_monitoring_task();
        TaskCommand::Restart { task: self.new_task() }
    }

    /// "Add More Servers": goes back to an empty server input.
    pub fn add_more_servers(&mut self) -> (r: TaskCommand)
        ensures
            r == TaskCommand::Stop,
            final(self).server_input@ == Seq::<char>::empty(),
            *final(self) == (NtpMonitorApp {
                state: AppState::ServerInput,
                monitoring: false,
                server_input: final(self).server_input,
                ..*old(self)
            }),
            old(self).wf() ==> final(self).wf(),
    {
        let r = self.stop_monitoring();
        self.state = AppState::ServerInput;
        self.server_input = String::new();
        r
    }

    /// "Settings": opens the settings dialog on the settings in force.
    pub fn open_settings(&mut self) -> (r: TaskCommand)
        ensures
            r == TaskCommand::Keep,
            *final(self) == (NtpMonitorApp {
                state: AppState::Settings,
                temp_settings: old(self).settings,
                ..*old(self)
            }),
            old(self).wf() && old(self).state == AppState::Monitoring ==> final(self).wf(),
    {
        self.temp_settings = self.settings.clone();
        self.state = AppState::Settings;
        TaskCommand::Keep
    }

    /// Moves the slider of the settings dialog. It does not leave its range.
    pub fn edit_frequency(&mut self, seconds: u64)
        ensures
            final(self).temp_settings.update_frequency_seconds == number::clamped(
                seconds as int,
                MIN_UPDATE_SECONDS as int,
                MAX_UPDATE_SECONDS as int,
            ),
            *final(self) == (NtpMonitorApp {
                temp_settings: Settings {
                    update_frequency_seconds: final(self).temp_settings.update_frequency_seconds,
                    ..old(self).temp_settings
                },
                ..*old(self)
            }),
            old(self).wf() ==> final(self).wf(),
    {
        self.temp_settings.update_frequency_seconds = clamp(
            seconds,
            MIN_UPDATE_SECONDS,
            MAX_UPDATE_SECONDS,
        );
    }

    /// Selects a time zone in the settings dialog.
    pub fn edit_timezone(&mut self, timezone: String)
        ensures
            *final(self) == (NtpMonitorApp {
                temp_settings: Settings { timezone, ..old(self).temp_settings },
                ..*old(self)
            }),
            old(self).wf() && text::is_clean(timezone@) ==> final(self).wf(),
    {
        self.temp_settings.timezone = timezone;
    }

    /// "Save": puts the edited settings in force.
    pub fn save_settings(&mut self) -> (r: TaskCommand)
        ensures
            r == (TaskCommand::Restart {
                task: MonitorTask::fresh(old(self).temp_settings.update_frequency_seconds),
            }),
            *final(self) == (NtpMonitorApp {
                state: AppState::Monitoring,
                settings: old(self).temp_settings,
                monitoring: true,
                ..*old(self)
            }),
            old(self).wf() ==> final(self).wf(),
    {
        self.settings = self.temp_settings.clone();
        let r = self.restart_monitoring_with_new_settings();
        self.state = AppState::Monitoring;
        r
    }

    /// "Cancel": drops the edited settings.
    pub fn cancel_settings(&mut self) -> (r: TaskCommand)
        ensures
            r == TaskCommand::Keep,
            *final(self) == (NtpMonitorApp {
                state: AppState::Monitoring,
                temp_settings: old(self).settings,
                ..*old(self)
            }),
            old(self).wf() && old(self).state == AppState::Settings ==> final(self).wf(),
    {
        self.temp_settings = self.settings.clone();
        self.state = AppState::Monitoring;
        TaskCommand::Keep
    }

    /// Takes over the list of servers that a round of queries has left, and notes when.
    pub fn publish(&mut self, servers: Vec<NtpServerInfo>, at: TimeSpan)
        ensures
            *final(self) == (NtpMonitorApp { servers, last_update_time: Some(at), ..*old(self) }),
            old(self).wf() && servers_wf(servers@) && at.wf() ==> final(self).wf(),
    {
        self.servers = servers;
        self.last_update_time = Some(at);
    }

    /// What serving a task leads to that has come to `stage`: it gets the list that it is about
    /// to read, or the list that it hands over takes the place of the old one. A task at any
    /// other stage wants nothing of the window.
    pub open spec fn serving_leads_to(
        self,
        frequency: nat,
        stage: StageModel,
        at: TimeSpan,
        next: NtpMonitorApp,
        next_stage: StageModel,
    ) -> bool {
        match stage {
            StageModel::Snapshot => {
                &&& next == self
                &&& next_stage == stage.after(
                    frequency,
                    EventModel::Servers { servers: self.servers@ },
                )
            },
            StageModel::Publishing { servers } => {
                &&& next.servers@ == servers
                &&& next == NtpMonitorApp {
                    servers: next.servers,
                    last_update_time: Some(at),
                    ..self
                }
                &&& next_stage == stage.after(frequency, EventModel::Published)
            },
            _ => next == self && next_stage == stage,
        }
    }

    /// Does what the task in the background wants of the window, at the time `at` on the clock
    /// of `last_update_time`.
    pub fn serve(&mut self, task: &mut MonitorTask, at: TimeSpan)
        requires
            old(task).stage@.wf(),
            server::all_wf(old(self).servers@),
        ensures
            old(self).serving_leads_to(
                old(task).update_frequency_seconds as nat,
                old(task).stage@,
                at,
                *final(self),
                final(task).stage@,
            ),
            final(task).update_frequency_seconds == old(task).update_frequency_seconds,
            final(task).stage@.wf(),
            old(self).wf() && at.wf() && (old(task).stage@ matches StageModel::Publishing {
                servers,
            } ==> servers_wf(servers)) ==> final(self).wf(),
    {
        match task.action() {
            TaskAction::TakeSnapshot => {
                task.advance(TaskEvent::Servers { servers: copy_servers(&self.servers) });
            },
            TaskAction::Publish { servers } => {
                self.publish(servers, at);
                task.advance(TaskEvent::Published);
            },
            _ => {},
        }
    }

    /// The label that counts the time down to the next round, at the time `now` on the clock of
    /// `last_update_time`.
    pub fn countdown(&self, now: TimeSpan) -> (r: String)
        requires
            now.wf(),
            self.last_update_time matches Some(last) ==> last.wf(),
        ensures
            r@ == display::countdown_text(
                elapsed_seconds(self.last_update_time, now),
                self.settings.update_frequency_seconds,
            ),
    {
        let elapsed: Option<u64> = match &self.last_update_time {
            Some(last) => Some(now.secs_beyond(last)),
            None => None,
        };
        countdown_label(elapsed, self.settings.update_frequency_seconds)
    }

    /// Closes the window: hands out the file to keep, and ends the task.
    pub fn on_exit(&mut self) -> (r: (Option<String>, TaskCommand))
        ensures
            r.0 is Some <==> old(self).servers@.len() > 0,
            r.0 matches Some(contents) ==> contents@ == ini::ini_text(
                server::names(old(self).servers@),
                old(self).settings.update_frequency_seconds as nat,
                old(self).settings.timezone@,
            ),
            r.1 == TaskCommand::Stop,
            *final(self) == (NtpMonitorApp { monitoring: false, ..*old(self) }),
    {
        let contents = self.save_servers_to_ini();
        let command = self.stop_monitoring();
        (contents, command)
    }
}

impl Default for NtpMonitorApp {
    /// An empty server input, no servers, and the default settings.
    fn default() -> (r: NtpMonitorApp)
        ensures
            r.state == AppState::ServerInput,
            r.server_input@ == Seq::<char>::empty(),
            r.servers@ == Seq::<NtpServerInfo>::empty(),
            r.settings.update_frequency_seconds == 10,
            r.settings.timezone@ == "UTC"@,
            r.temp_settings.update_frequency_seconds == 10,
            r.temp_settings.timezone@ == "UTC"@,
            r.last_update_time is None,
            !r.monitoring,
            r.wf(),
    {
        NtpMonitorApp {
            state: AppState::ServerInput,
            server_input: String::new(),
            servers: Vec::new(),
            settings: Settings::default(),
            temp_settings: Settings::default(),
            last_update_time: None,
            monitoring: false,
        }
    }
}

/// Every event leads from a well-formed window to a well-formed one, if the lists that the task
/// hands over are well-formed.
pub proof fn events_keep_wf(
    app: NtpMonitorApp,
    event: WindowEvent,
    command: TaskCommand,
    next: NtpMonitorApp,
)
    requires
        app.wf(),
        app.leads_to(event, command, next),
        event_wf(event),
    ensures
        next.wf(),
{
    clock::common_timezones_distinct();
    if event is StartMonitoring && next.servers != app.servers {
        let names = server::server_names(app.server_input@);
        assert forall|i: int| 0 <= i < next.servers@.len() implies (#[trigger] next.servers@[i]).wf()
            && text::is_clean(next.servers@[i].name@) by {
            server::server_names_clean(app.server_input@, i);
            assert(next.servers@[i].is_entry(names[i], event->lookups@[i]));
        }
    }
}

/// Only a list that is handed over changes the time of the last update, and no other event but
/// "Start Monitoring" changes the list.
pub proof fn only_publishing_marks_an_update(
    app: NtpMonitorApp,
    event: WindowEvent,
    command: TaskCommand,
    next: NtpMonitorApp,
)
    requires
        app.leads_to(event, command, next),
    ensures
        match event {
            WindowEvent::Publish { servers, at } => next.servers == servers
                && next.last_update_time == Some(at),
            _ => next.last_update_time == app.last_update_time,
        },
        !(event is Publish) && !(event is StartMonitoring) ==> next.servers == app.servers,
{
}

/// What a window saves when it closes brings its servers and its settings back when it is
/// loaded, whatever was set before.
pub proof fn saved_state_loads_back(app: NtpMonitorApp, before: Settings)
    requires
        app.wf(),
    ensures
        ({
            let contents = ini::ini_text(
                server::names(app.servers@),
                app.settings.update_frequency_seconds as nat,
                app.settings.timezone@,
            );
            &&& ini::ini_of(contents).servers == server::names(app.servers@)
            &&& merged_settings(before, ini::ini_of(contents)) == (
                app.settings.update_frequency_seconds,
                app.settings.timezone@,
            )
        }),
{
    let names = server::names(app.servers@);
    assert forall|i: int| 0 <= i < names.len() implies text::is_clean(#[trigger] names[i]) by {
        assert(names[i] == app.servers@[i].name@);
    }
    ini::ini_read_back(names, app.settings.update_frequency_seconds, app.settings.timezone@);
}

/// What a file leaves in force when it is loaded is what it says again once it is saved.
pub proof fn loaded_state_saves_back(contents: Seq<char>, before: Settings)
    requires
        before.wf(),
    ensures
        ({
            let (frequency, timezone) = merged_settings(before, ini::ini_of(contents));
            ini::ini_of(ini::ini_text(ini::ini_of(contents).servers, frequency as nat, timezone))
                == (ini::Ini {
                servers: ini::ini_of(contents).servers,
                frequency: Some(frequency),
                timezone: Some(timezone),
            })
        }),
{
    let (frequency, timezone) = merged_settings(before, ini::ini_of(contents));
    ini::ini_values_in_range(contents);
    ini::ini_read_back(ini::ini_of(contents).servers, frequency, timezone);
}

/// The list that a round of queries hands over can take the place of the one that was read.
pub proof fn round_keeps_servers_wf(servers: Seq<NtpServerInfo>, replies: Seq<Reply>)
    requires
        servers_wf(servers),
        servers.len() == replies.len(),
        forall|i: int| 0 <= i < replies.len() ==> (#[trigger] replies[i]).wf(),
    ensures
        servers_wf(task::round_result(servers, replies)),
{
    let result = task::round_result(servers, replies);
    assert forall|i: int| 0 <= i < result.len() implies (#[trigger] result[i]).wf()
        && text::is_clean(result[i].name@) by {
        assert(servers[i].wf() && replies[i].wf());
        server::outcome_keeps_wf(servers[i], replies[i]);
        server::outcome_keeps_identity(servers[i], replies[i]);
    }
}

/// In the settings dialog, moving the slider leaves exactly the number of seconds it stands at
/// as the edited frequency, from 5 to 300; below it is 5, and above 300. Nothing else changes.
/// Saving then puts exactly the edited settings in force, and restarts the task with the edited
/// frequency.
pub proof fn slider_seconds_come_into_force(
    app: &mut NtpMonitorApp,
    seconds: u64,
    r: TaskCommand,
    saved: &mut NtpMonitorApp,
    command: TaskCommand,
)
    requires
        old(app).state is Settings,
        call_ensures(NtpMonitorApp::update, (app, WindowEvent::EditFrequency { seconds }), r),
        *old(saved) == *final(app),
        call_ensures(NtpMonitorApp::update, (saved, WindowEvent::SaveSettings), command),
    ensures
        r is Keep,
        5 <= seconds <= 300 ==> final(app).temp_settings.update_frequency_seconds == seconds,
        seconds < 5 ==> final(app).temp_settings.update_frequency_seconds == 5,
        seconds > 300 ==> final(app).temp_settings.update_frequency_seconds == 300,
        final(app).temp_settings.timezone == old(app).temp_settings.timezone,
        final(app).settings == old(app).settings,
        final(app).state is Settings,
        final(app).server_input == old(app).server_input,
        final(app).servers == old(app).servers,
        final(app).last_update_time == old(app).last_update_time,
        final(app).monitoring == old(app).monitoring,
        5 <= seconds <= 300 ==> final(saved).settings.update_frequency_seconds == seconds,
        final(saved).settings == final(app).temp_settings,
        final(saved).temp_settings == final(app).temp_settings,
        final(saved).state is Monitoring,
        final(saved).server_input == old(app).server_input,
        final(saved).servers == old(app).servers,
        final(saved).last_update_time == old(app).last_update_time,
        final(saved).monitoring,
        command matches TaskCommand::Restart { task } && task.stage is RoundCheck && (5 <= seconds
            <= 300 ==> task.update_frequency_seconds == seconds),
{
}

/// "Save" puts the edited settings in force, both of them, and restarts the task with the
/// edited frequency. "Cancel" keeps those in force and drops the edits, and leaves the task
/// alone. Both go back to the table, and change nothing else.
pub proof fn save_keeps_edits_and_cancel_drops_them(
    saved: &mut NtpMonitorApp,
    command: TaskCommand,
    cancelled: &mut NtpMonitorApp,
    r: TaskCommand,
)
    requires
        old(saved).state is Settings,
        call_ensures(NtpMonitorApp::update, (saved, WindowEvent::SaveSettings), command),
        old(cancelled).state is Settings,
        call_ensures(NtpMonitorApp::update, (cancelled, WindowEvent::CancelSettings), r),
    ensures
        final(saved).settings == old(saved).temp_settings,
        final(saved).temp_settings == old(saved).temp_settings,
        final(saved).state is Monitoring,
        final(saved).server_input == old(saved).server_input,
        final(saved).servers == old(saved).servers,
        final(saved).last_update_time == old(saved).last_update_time,
        final(saved).monitoring,
        command matches TaskCommand::Restart { task } && task.stage is RoundCheck
            && task.update_frequency_seconds == old(saved).temp_settings.update_frequency_seconds,
        final(cancelled).settings == old(cancelled).settings,
        final(cancelled).temp_settings == old(cancelled).settings,
        final(cancelled).state is Monitoring,
        final(cancelled).server_input == old(cancelled).server_input,
        final(cancelled).servers == old(cancelled).servers,
        final(cancelled).last_update_time == old(cancelled).last_update_time,
        final(cancelled).monitoring == old(cancelled).monitoring,
        r is Keep,
{
}

/// In the settings dialog, picking a time zone makes the one at this place of the list the
/// edited one, and nothing else changes; a place beyond the list changes nothing at all.
pub proof fn picked_zone_is_the_one_on_offer(
    app: &mut NtpMonitorApp,
    index: usize,
    r: TaskCommand,
    zones: Vec<String>,
)
    requires
        old(app).state is Settings,
        call_ensures(NtpMonitorApp::update, (app, WindowEvent::SelectTimezone { index }), r),
        call_ensures(get_common_timezones, (), zones),
    ensures
        r is Keep,
        index < zones@.len() ==> final(app).temp_settings.timezone@ == zones@[index as int]@,
        index >= zones@.len() ==> *final(app) == *old(app),
        final(app).temp_settings.update_frequency_seconds == old(
            app,
        ).temp_settings.update_frequency_seconds,
        final(app).settings == old(app).settings,
        final(app).state is Settings,
        final(app).server_input == old(app).server_input,
        final(app).servers == old(app).servers,
        final(app).last_update_time == old(app).last_update_time,
        final(app).monitoring == old(app).monitoring,
{
    assert(text::texts(zones@).len() == zones@.len());
    if index < zones@.len() {
        assert(text::texts(zones@)[index as int] == zones@[index as int]@);
    }
}

/// "Settings" opens the dialog on the settings in force, and "Add More Servers" ends the task
/// and goes back to an empty server input. The servers and the settings stay.
pub proof fn buttons_of_the_table(
    opened: &mut NtpMonitorApp,
    r: TaskCommand,
    back: &mut NtpMonitorApp,
    command: TaskCommand,
)
    requires
        old(opened).state is Monitoring,
        call_ensures(NtpMonitorApp::update, (opened, WindowEvent::OpenSettings), r),
        old(back).state is Monitoring,
        call_ensures(NtpMonitorApp::update, (back, WindowEvent::AddMoreServers), command),
    ensures
        r is Keep,
        final(opened).state is Settings,
        final(opened).settings == old(opened).settings,
        final(opened).temp_settings == old(opened).settings,
        final(opened).server_input == old(opened).server_input,
        final(opened).servers == old(opened).servers,
        final(opened).last_update_time == old(opened).last_update_time,
        final(opened).monitoring == old(opened).monitoring,
        command is Stop,
        final(back).state is ServerInput,
        final(back).server_input@.len() == 0,
        final(back).settings == old(back).settings,
        final(back).temp_settings == old(back).temp_settings,
        final(back).servers == old(back).servers,
        final(back).last_update_time == old(back).last_update_time,
        !final(back).monitoring,
{
}

/// "Use Loaded Servers" watches the servers of the list as they are, with a task that asks as
/// often as the settings in force say; without servers it does nothing. Entering text changes
/// the text alone.
pub proof fn loaded_servers_are_watched_as_they_are(
    app: &mut NtpMonitorApp,
    command: TaskCommand,
    typed: &mut NtpMonitorApp,
    text: String,
    r: TaskCommand,
)
    requires
        old(app).state is ServerInput,
        call_ensures(NtpMonitorApp::update, (app, WindowEvent::UseLoadedServers), command),
        old(typed).state is ServerInput,
        call_ensures(NtpMonitorApp::update, (typed, WindowEvent::EnterServers { text }), r),
    ensures
        old(app).servers@.len() == 0 ==> command is Keep && *final(app) == *old(app),
        old(app).servers@.len() > 0 ==> {
            &&& command matches TaskCommand::Start { task }
            &&& task.stage is RoundCheck
            &&& task.update_frequency_seconds == old(app).settings.update_frequency_seconds
            &&& final(app).state is Monitoring
            &&& final(app).monitoring
        },
        final(app).servers == old(app).servers,
        final(app).settings == old(app).settings,
        final(app).temp_settings == old(app).temp_settings,
        final(app).server_input == old(app).server_input,
        final(app).last_update_time == old(app).last_update_time,
        r is Keep,
        final(typed).server_input == text,
        final(typed).state is ServerInput,
        final(typed).servers == old(typed).servers,
        final(typed).settings == old(typed).settings,
        final(typed).temp_settings == old(typed).temp_settings,
        final(typed).last_update_time == old(typed).last_update_time,
        final(typed).monitoring == old(typed).monitoring,
{
}

/// "Start Monitoring" watches the servers that the input names, in their order, each at the
/// address that was found for it or at its name, with nothing known of them yet; on blank input
/// it does nothing.
pub proof fn entered_servers_are_watched(
    app: &mut NtpMonitorApp,
    lookups: Vec<Option<String>>,
    command: TaskCommand,
    input: &str,
    names: Vec<String>,
    i: int,
)
    requires
        old(app).state is ServerInput,
        call_ensures(NtpMonitorApp::update, (app, WindowEvent::StartMonitoring { lookups }), command),
        input@ == old(app).server_input@,
        call_ensures(parse_server_names, (input,), names),
    ensures
        names@.len() == 0 ==> command is Keep && *final(app) == *old(app),
        names@.len() > 0 ==> {
            &&& command matches TaskCommand::Start { task }
            &&& task.stage is RoundCheck
            &&& task.update_frequency_seconds == old(app).settings.update_frequency_seconds
            &&& final(app).state is Monitoring
            &&& final(app).monitoring
            &&& final(app).servers@.len() == names@.len()
            &&& 0 <= i < names@.len() ==> {
                let server = final(app).servers@[i];
                &&& server.name@ == names@[i]@
                &&& lookups@[i] matches Some(address) ==> server.ip@ == address@
                &&& lookups@[i] is None ==> server.ip@ == names@[i]@
                &&& server.is_fresh()
            }
        },
        final(app).settings == old(app).settings,
        final(app).temp_settings == old(app).temp_settings,
        final(app).server_input == old(app).server_input,
        final(app).last_update_time == old(app).last_update_time,
{
    server::input_names_server(old(app).server_input@);
    assert(text::texts(names@).len() == names@.len());
    if 0 <= i < names@.len() {
        assert(text::texts(names@)[i] == names@[i]@);
        if names@.len() > 0 {
            assert(final(app).servers@[i].is_entry(
                server::server_names(old(app).server_input@)[i],
                lookups@[i],
            ));
        }
    }
}

/// A list that is handed over takes the place of the old one as it is, with its time as that of
/// the last update, whatever the window shows. Nothing else changes.
pub proof fn published_list_takes_the_place(
    app: &mut NtpMonitorApp,
    servers: Vec<NtpServerInfo>,
    at: TimeSpan,
    r: TaskCommand,
)
    requires
        call_ensures(NtpMonitorApp::update, (app, WindowEvent::Publish { servers, at }), r),
    ensures
        r is Keep,
        final(app).servers == servers,
        final(app).last_update_time == Some(at),
        final(app).state == old(app).state,
        final(app).server_input == old(app).server_input,
        final(app).settings == old(app).settings,
        final(app).temp_settings == old(app).temp_settings,
        final(app).monitoring == old(app).monitoring,
{
}

/// What belongs to a dialog that the window does not show changes nothing.
pub proof fn hidden_dialogs_do_nothing(
    app: &mut NtpMonitorApp,
    event: WindowEvent,
    r: TaskCommand,
)
    requires
        call_ensures(NtpMonitorApp::update, (app, event), r),
        match event {
            WindowEvent::EnterServers { text } => !(old(app).state is ServerInput),
            WindowEvent::UseLoadedServers => !(old(app).state is ServerInput),
            WindowEvent::StartMonitoring { lookups } => !(old(app).state is ServerInput),
            WindowEvent::AddMoreServers => !(old(app).state is Monitoring),
            WindowEvent::OpenSettings => !(old(app).state is Monitoring),
            WindowEvent::EditFrequency { seconds } => !(old(app).state is Settings),
            WindowEvent::SelectTimezone { index } => !(old(app).state is Settings),
            WindowEvent::SaveSettings => !(old(app).state is Settings),
            WindowEvent::CancelSettings => !(old(app).state is Settings),
            WindowEvent::Publish { servers, at } => false,
        },
    ensures
        r is Keep,
        *final(app) == *old(app),
{
}

/// Each event is related to its window as the window's own rules say.
pub proof fn update_follows_the_rules(app: &mut NtpMonitorApp, event: WindowEvent, r: TaskCommand)
    requires
        call_ensures(NtpMonitorApp::update, (app, event), r),
    ensures
        old(app).leads_to(event, r, *final(app)),
{
}

/// The edits of the settings dialog are the same through their own functions as through the
/// window.
pub proof fn edits_are_the_same_through_the_window(
    window: &mut NtpMonitorApp,
    seconds: u64,
    r: TaskCommand,
    edited: &mut NtpMonitorApp,
    zone: String,
    picked: &mut NtpMonitorApp,
)
    requires
        old(window).state is Settings,
        *old(edited) == *old(window),
        call_ensures(NtpMonitorApp::update, (window, WindowEvent::EditFrequency { seconds }), r),
        call_ensures(NtpMonitorApp::edit_frequency, (edited, seconds), ()),
        call_ensures(NtpMonitorApp::edit_timezone, (picked, zone), ()),
    ensures
        *final(edited) == *final(window),
        final(picked).temp_settings.timezone == zone,
        final(picked).temp_settings.update_frequency_seconds == old(
            picked,
        ).temp_settings.update_frequency_seconds,
        final(picked).settings == old(picked).settings,
        final(picked).state == old(picked).state,
        final(picked).servers == old(picked).servers,
        final(picked).server_input == old(picked).server_input,
        final(picked).last_update_time == old(picked).last_update_time,
        final(picked).monitoring == old(picked).monitoring,
{
}

/// The buttons do the same through their own functions as through the window.
pub proof fn buttons_are_the_same_through_the_window(
    window: &mut NtpMonitorApp,
    event: WindowEvent,
    r: TaskCommand,
    alone: &mut NtpMonitorApp,
    command: TaskCommand,
)
    requires
        *old(alone) == *old(window),
        call_ensures(NtpMonitorApp::update, (window, event), r),
        match event {
            WindowEvent::UseLoadedServers => old(window).state is ServerInput
                && old(window).servers@.len() > 0 && call_ensures(
                NtpMonitorApp::use_loaded_servers,
                (alone,),
                command,
            ),
            WindowEvent::OpenSettings => old(window).state is Monitoring && call_ensures(
                NtpMonitorApp::open_settings,
                (alone,),
                command,
            ),
            WindowEvent::SaveSettings => old(window).state is Settings && call_ensures(
                NtpMonitorApp::save_settings,
                (alone,),
                command,
            ),
            WindowEvent::CancelSettings => old(window).state is Settings && call_ensures(
                NtpMonitorApp::cancel_settings,
                (alone,),
                command,
            ),
            _ => false,
        },
    ensures
        *final(alone) == *final(window),
        command == r,
{
}

/// Starting notes that a task runs and hands out one with the frequency in force, stopping notes
/// that none runs, and restarting leaves what starting leaves.
pub proof fn starting_and_stopping_note_the_task(
    started: &mut NtpMonitorApp,
    start: TaskCommand,
    stopped: &mut NtpMonitorApp,
    stop: TaskCommand,
    restarted: &mut NtpMonitorApp,
    restart: TaskCommand,
)
    requires
        call_ensures(NtpMonitorApp::start_monitoring_task, (started,), start),
        call_ensures(NtpMonitorApp::stop_monitoring, (stopped,), stop),
        *old(restarted) == *old(started),
        call_ensures(
            NtpMonitorApp::restart_monitoring_with_new_settings,
            (restarted,),
            restart,
        ),
    ensures
        final(started).monitoring,
        final(started).state == old(started).state,
        final(started).servers == old(started).servers,
        final(started).server_input == old(started).server_input,
        final(started).settings == old(started).settings,
        final(started).temp_settings == old(started).temp_settings,
        final(started).last_update_time == old(started).last_update_time,
        start matches TaskCommand::Start { task } && task.stage is RoundCheck
            && task.update_frequency_seconds == old(started).settings.update_frequency_seconds
            && restart == (TaskCommand::Restart { task }),
        *final(restarted) == *final(started),
        stop is Stop,
        !final(stopped).monitoring,
        final(stopped).state == old(stopped).state,
        final(stopped).servers == old(stopped).servers,
        final(stopped).server_input == old(stopped).server_input,
        final(stopped).settings == old(stopped).settings,
        final(stopped).temp_settings == old(stopped).temp_settings,
        final(stopped).last_update_time == old(stopped).last_update_time,
{
}

/// Loading a file takes over what is read from it: its servers, if it has any, in their order,
/// and each setting that it holds; a setting that it does not hold stays. The dialog starts from
/// the settings in force. A file that could not be read changes nothing.
pub proof fn loading_takes_over_what_is_read(
    app: &mut NtpMonitorApp,
    contents: &str,
    lookups: Vec<Option<String>>,
    config: ini::IniConfig,
    i: int,
    unread: &mut NtpMonitorApp,
    none: Vec<Option<String>>,
)
    requires
        call_ensures(NtpMonitorApp::load_servers_from_ini, (app, Some(contents), lookups), ()),
        call_ensures(parse_ini, (contents,), config),
        call_ensures(NtpMonitorApp::load_servers_from_ini, (unread, None::<&str>, none), ()),
    ensures
        config.servers@.len() == 0 ==> final(app).servers == old(app).servers,
        config.servers@.len() > 0 ==> {
            &&& final(app).servers@.len() == config.servers@.len()
            &&& 0 <= i < config.servers@.len() ==> {
                let server = final(app).servers@[i];
                &&& server.name@ == config.servers@[i]@
                &&& lookups@[i] matches Some(address) ==> server.ip@ == address@
                &&& lookups@[i] is None ==> server.ip@ == config.servers@[i]@
                &&& server.is_fresh()
            }
        },
        config.update_frequency_seconds matches Some(n)
            ==> final(app).settings.update_frequency_seconds == n,
        config.update_frequency_seconds is None ==> final(app).settings.update_frequency_seconds
            == old(app).settings.update_frequency_seconds,
        config.timezone matches Some(timezone) ==> final(app).settings.timezone@ == timezone@,
        config.timezone is None ==> final(app).settings.timezone@ == old(app).settings.timezone@,
        final(app).temp_settings == final(app).settings,
        final(app).state == old(app).state,
        final(app).server_input == old(app).server_input,
        final(app).last_update_time == old(app).last_update_time,
        final(app).monitoring == old(app).monitoring,
        *final(unread) == *old(unread),
{
    assert(config@.servers.len() == config.servers@.len());
    if 0 <= i < config.servers@.len() {
        assert(config@.servers[i] == config.servers@[i]@);
        assert(final(app).servers@[i].is_entry(config@.servers[i], lookups@[i]));
    }
}

/// What is kept is the file of the servers and the settings in force, not of those under edit,
/// and closing the window hands out the same file, ends the task and changes nothing else.
pub proof fn closing_keeps_what_saving_keeps(
    app: &NtpMonitorApp,
    saved: Option<String>,
    rendered: Option<String>,
    closed: &mut NtpMonitorApp,
    r: (Option<String>, TaskCommand),
)
    requires
        call_ensures(NtpMonitorApp::save_servers_to_ini, (app,), saved),
        call_ensures(render_ini, (&app.servers, &app.settings), rendered),
        *old(closed) == *app,
        call_ensures(NtpMonitorApp::on_exit, (closed,), r),
    ensures
        saved is Some <==> app.servers@.len() > 0,
        rendered is Some <==> saved is Some,
        r.0 is Some <==> saved is Some,
        saved matches Some(contents) ==> rendered->0@ == contents@ && r.0->0@ == contents@,
        r.1 is Stop,
        !final(closed).monitoring,
        final(closed).state == app.state,
        final(closed).servers == app.servers,
        final(closed).server_input == app.server_input,
        final(closed).settings == app.settings,
        final(closed).temp_settings == app.temp_settings,
        final(closed).last_update_time == app.last_update_time,
{
}

/// Serving a task gives it the window's list, or takes its list over with the time; at any other
/// stage neither the window nor the task changes.
pub proof fn serving_moves_lists_only(
    app: &mut NtpMonitorApp,
    task: &mut MonitorTask,
    at: TimeSpan,
)
    requires
        call_ensures(NtpMonitorApp::serve, (app, task, at), ()),
    ensures
        final(task).update_frequency_seconds == old(task).update_frequency_seconds,
        final(app).state == old(app).state,
        final(app).server_input == old(app).server_input,
        final(app).settings == old(app).settings,
        final(app).temp_settings == old(app).temp_settings,
        final(app).monitoring == old(app).monitoring,
        match old(task).stage {
            task::TaskStage::Snapshot => {
                &&& *final(app) == *old(app)
                &&& old(app).servers@.len() > 0 ==> (
                final(task).stage matches task::TaskStage::ServerCheck { servers, next } && servers@
                    == old(app).servers@ && next == 0)
                &&& old(app).servers@.len() == 0 ==> (
                final(task).stage matches task::TaskStage::Publishing { servers } && servers@.len()
                    == 0)
            },
            task::TaskStage::Publishing { servers } => {
                &&& final(app).servers@ == servers@
                &&& final(app).last_update_time == Some(at)
                &&& old(task).update_frequency_seconds > 0 ==> final(task).stage == (
                task::TaskStage::NapCheck {
                    remaining: (old(task).update_frequency_seconds * 1000) as u128,
                })
                &&& old(task).update_frequency_seconds == 0 ==> final(task).stage is RoundCheck
            },
            _ => *final(app) == *old(app) && final(task).stage@ == old(task).stage@,
        },
{
}

/// The countdown of the window counts from its last update to now, at the frequency in force.
pub proof fn window_counts_from_its_last_update(
    app: &NtpMonitorApp,
    now: TimeSpan,
    r: String,
    last: TimeSpan,
    secs: u64,
    label: String,
    elapsed: Option<u64>,
)
    requires
        call_ensures(NtpMonitorApp::countdown, (app, now), r),
        call_ensures(TimeSpan::secs_beyond, (&now, &last), secs),
        elapsed is None || elapsed == Some(secs),
        call_ensures(
            countdown_label,
            (elapsed, app.settings.update_frequency_seconds),
            label,
        ),
    ensures
        app.last_update_time == Some(last) && elapsed is Some ==> r@ == label@,
        app.last_update_time is None && elapsed is None ==> r@ == label@,
{
}

/// There is input just where the text holds any character but white space.
pub proof fn input_is_more_than_white_space(app: &NtpMonitorApp, r: bool)
    requires
        call_ensures(NtpMonitorApp::has_input, (app,), r),
    ensures
        r <==> exists|i: int|
            0 <= i < app.server_input@.len() && !text::is_white_space(
                #[trigger] app.server_input@[i],
            ),
{
    text::trim_finds_ink(app.server_input@);
}

/// A new task has the frequency in force, not the one under edit.
pub proof fn new_task_has_the_frequency_in_force(app: &NtpMonitorApp, task: MonitorTask)
    requires
        call_ensures(NtpMonitorApp::new_task, (app,), task),
    ensures
        task.update_frequency_seconds == app.settings.update_frequency_seconds,
        task.stage is RoundCheck,
        task == app.next_task(),
{
}

/// "Add More Servers", "Start Monitoring" and a list that is handed over do the same through
/// their own functions as through the window.
pub proof fn lists_are_the_same_through_the_window(
    back: &mut NtpMonitorApp,
    stop: TaskCommand,
    started: &mut NtpMonitorApp,
    lookups: Vec<Option<String>>,
    start: TaskCommand,
    published: &mut NtpMonitorApp,
    servers: Vec<NtpServerInfo>,
    at: TimeSpan,
)
    requires
        call_ensures(NtpMonitorApp::add_more_servers, (back,), stop),
        call_ensures(NtpMonitorApp::start_monitoring, (started, lookups), start),
        call_ensures(NtpMonitorApp::publish, (published, servers, at), ()),
    ensures
        old(back).state is Monitoring ==> old(back).leads_to(
            WindowEvent::AddMoreServers,
            stop,
            *final(back),
        ),
        old(started).state is ServerInput ==> old(started).leads_to(
            WindowEvent::StartMonitoring { lookups },
            start,
            *final(started),
        ),
        old(published).leads_to(
            WindowEvent::Publish { servers, at },
            TaskCommand::Keep,
            *final(published),
        ),
{
}

/// Where the input is not blank, watching it at once does what "Start Monitoring" does.
pub proof fn watching_the_input_needs_no_button(
    app: &mut NtpMonitorApp,
    lookups: Vec<Option<String>>,
    command: TaskCommand,
)
    requires
        call_ensures(NtpMonitorApp::parse_and_start_monitoring, (app, lookups), command),
        old(app).state is ServerInput,
        text::has_ink(old(app).server_input@),
    ensures
        old(app).leads_to(WindowEvent::StartMonitoring { lookups }, command, *final(app)),
{
    text::trim_finds_ink(old(app).server_input@);
}

} // verus!
