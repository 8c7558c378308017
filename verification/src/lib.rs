//! The core of an NTP server monitor: the servers under watch, the queries to them, the rounds
//! of the task in the background, the file that keeps servers and settings, the state of the
//! window, and what the window shows.

pub mod calendar;
pub mod clock;
pub mod display;
pub mod ini;
pub mod monitor;
pub mod number;
pub mod polling;
pub mod query;
pub mod server;
pub mod settings;
pub mod task;
pub mod text;
pub mod time;
pub mod worker;
