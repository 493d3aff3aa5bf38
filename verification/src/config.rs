//! User settings: calendar sources, the visible hours of the timeline, and
//! meeting reminders.

use vstd::prelude::*;

verus! {

broadcast use vstd::string::group_string_axioms;

/// Google account: OAuth client and refresh token, or a fallback source
/// (a vdirsyncer directory or an ICS link).
#[derive(Clone, Debug)]
pub struct GoogleConfig {
    pub client_id: String,
    pub client_secret: String,
    pub refresh_token: String,
    pub vdir_path: String,
    pub ics_url: String,
}

/// Microsoft / Outlook: a published ICS link.
#[derive(Clone, Debug)]
pub struct MicrosoftConfig {
    pub ics_url: String,
}

/// First and last hour shown on the timeline.
#[derive(Clone, Copy, Debug)]
pub struct DisplayConfig {
    pub start_hour: u32,
    pub end_hour: u32,
}

/// Meeting reminders: minutes ahead (none when off) and at the start.
#[derive(Clone, Copy, Debug)]
pub struct NotificationConfig {
    pub notify_before_minutes: Option<u64>,
    pub notify_on_start: bool,
}

/// All settings.
#[derive(Clone, Debug)]
pub struct Config {
    pub google: GoogleConfig,
    pub microsoft: MicrosoftConfig,
    pub display: DisplayConfig,
    pub notifications: NotificationConfig,
}

impl GoogleConfig {
    /// Every field empty.
    pub open spec fn is_blank(&self) -> bool {
        &&& self.client_id@.len() == 0
        &&& self.client_secret@.len() == 0
        &&& self.refresh_token@.len() == 0
        &&& self.vdir_path@.len() == 0
        &&& self.ics_url@.len() == 0
    }

    /// An equal copy.
    pub fn duplicate(&self) -> (r: GoogleConfig)
        ensures
            r == *self,
    {
        GoogleConfig {
            client_id: self.client_id.clone(),
            client_secret: self.client_secret.clone(),
            refresh_token: self.refresh_token.clone(),
            vdir_path: self.vdir_path.clone(),
            ics_url: self.ics_url.clone(),
        }
    }
}

impl Default for GoogleConfig {
    fn default() -> (r: GoogleConfig)
        ensures
            r.is_blank(),
    {
        GoogleConfig {
            client_id: String::new(),
            client_secret: String::new(),
            refresh_token: String::new(),
            vdir_path: String::new(),
            ics_url: String::new(),
        }
    }
}

impl Default for MicrosoftConfig {
    fn default() -> (r: MicrosoftConfig)
        ensures
            r.ics_url@.len() == 0,
    {
        MicrosoftConfig { ics_url: String::new() }
    }
}

impl Default for DisplayConfig {
    /// Working hours: 08:00 to 18:00.
    fn default() -> (r: DisplayConfig)
        ensures
            r.start_hour == 8,
            r.end_hour == 18,
    {
        DisplayConfig { start_hour: 8, end_hour: 18 }
    }
}

impl Default for NotificationConfig {
    /// A reminder five minutes ahead, and a notice at the start.
    fn default() -> (r: NotificationConfig)
        ensures
            r.notify_before_minutes == Some(5u64),
            r.notify_on_start,
    {
        NotificationConfig { notify_before_minutes: Some(5), notify_on_start: true }
    }
}

impl Config {
    /// An equal copy.
    pub fn duplicate(&self) -> (r: Config)
        ensures
            r == *self,
    {
        Config {
            google: self.google.duplicate(),
            microsoft: MicrosoftConfig { ics_url: self.microsoft.ics_url.clone() },
            display: self.display,
            notifications: self.notifications,
        }
    }
}

impl Default for Config {
    /// No calendar configured, working hours 08–18, a reminder five minutes
    /// ahead and a notice at the start.
    fn default() -> (r: Config)
        ensures
            r.google.is_blank(),
            r.microsoft.ics_url@.len() == 0,
            r.display.start_hour == 8,
            r.display.end_hour == 18,
            r.notifications.notify_before_minutes == Some(5u64),
            r.notifications.notify_on_start,
    {
        Config {
            google: GoogleConfig::default(),
            microsoft: MicrosoftConfig::default(),
            display: DisplayConfig::default(),
            notifications: NotificationConfig::default(),
        }
    }
}

} // verus!
