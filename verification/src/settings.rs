//! What a user can set.

use vstd::prelude::*;

use crate::text;

verus! {

/// The fewest seconds between two rounds of queries.
pub const MIN_UPDATE_SECONDS: u64 = 5;

/// The most seconds between two rounds of queries.
pub const MAX_UPDATE_SECONDS: u64 = 300;

/// The seconds between two rounds of queries, and the time zone that times are shown in.
#[derive(Debug, PartialEq, Eq)]
pub struct Settings {
    pub update_frequency_seconds: u64,
    pub timezone: String,
}

impl Settings {
    /// The frequency lies in its range, and a settings file can carry the time zone.
    pub open spec fn wf(self) -> bool {
        &&& MIN_UPDATE_SECONDS <= self.update_frequency_seconds <= MAX_UPDATE_SECONDS
        &&& text::is_clean(self.timezone@)
    }
}

impl Default for Settings {
    /// A round of queries every ten seconds, and times in UTC.
    fn default() -> (r: Settings)
        ensures
            r.update_frequency_seconds == 10,
            r.timezone@ == "UTC"@,
            r.wf(),
    {
        proof {
            reveal_strlit("UTC");
            text::lemma_trim_fixed("UTC"@);
        }
        Settings { update_frequency_seconds: 10, timezone: "UTC".to_string() }
    }
}

impl Clone for Settings {
    fn clone(&self) -> (r: Settings)
        ensures
            r == *self,
    {
        Settings {
            update_frequency_seconds: self.update_frequency_seconds,
            timezone: self.timezone.clone(),
        }
    }
}

/// A copy of the settings holds the same frequency and the same time zone.
pub proof fn clone_keeps_both_settings(settings: &Settings, copy: Settings)
    requires
        call_ensures(Settings::clone, (settings,), copy),
    ensures
        copy.update_frequency_seconds == settings.update_frequency_seconds,
        copy.timezone@ == settings.timezone@,
{
}

/// Settings are well-formed just where the frequency lies from 5 to 300 and the time zone fits
/// on a line without white space around it.
pub proof fn frequency_lies_in_its_range(settings: Settings)
    ensures
        settings.wf() <==> 5 <= settings.update_frequency_seconds <= 300 && text::trim(
            settings.timezone@,
        ) == settings.timezone@ && !settings.timezone@.contains('\n'),
{
}

} // verus!
