//! Configuration: calendar sources, notification, sync and daemon settings.

use vstd::prelude::*;

verus! {

/// A CalDAV calendar source.
#[derive(Clone, Debug)]
pub struct CalendarSource {
    /// Human-readable calendar name.
    pub name: String,
    /// CalDAV URL.
    pub url: String,
    /// Display color (hex string).
    pub color: Option<String>,
    /// Whether this calendar is enabled.
    pub enabled: bool,
}

/// Notification/reminder settings.
#[derive(Clone, Copy, Debug, PartialEq, Eq, Structural)]
pub struct NotificationConfig {
    /// Enable notifications.
    pub enabled: bool,
    /// Default reminder in minutes before event.
    pub default_reminder_mins: i32,
    /// Enable notification sound.
    pub sound: bool,
}

impl Default for NotificationConfig {
    /// Notifications on, 15 minutes ahead, with sound.
    fn default() -> (r: Self)
        ensures
            r.enabled,
            r.default_reminder_mins == 15,
            r.sound,
    {
        NotificationConfig { enabled: true, default_reminder_mins: 15, sound: true }
    }
}

/// Calendar sync settings.
#[derive(Clone, Copy, Debug, PartialEq, Eq, Structural)]
pub struct SyncConfig {
    /// Sync interval in seconds.
    pub interval_secs: u32,
    /// Enable offline mode (cache events locally).
    pub offline_mode: bool,
}

impl Default for SyncConfig {
    /// Every five minutes, not offline.
    fn default() -> (r: Self)
        ensures
            r.interval_secs == 300,
            !r.offline_mode,
    {
        SyncConfig { interval_secs: 300, offline_mode: false }
    }
}

/// Daemon mode configuration.
#[derive(Clone, Debug)]
pub struct DaemonConfig {
    /// Enable daemon mode.
    pub enable: bool,
    /// Listen address for the daemon.
    pub listen_addr: String,
    /// Database URL for event storage.
    pub database_url: String,
}

impl Default for DaemonConfig {
    /// Disabled, listening on all interfaces at port 50052, with a SQLite
    /// database under `/tmp/kodate`.
    fn default() -> (r: Self)
        ensures
            !r.enable,
            r.listen_addr@ == "0.0.0.0:50052"@,
            r.database_url@ == "sqlite:///tmp/kodate/state.db"@,
    {
        DaemonConfig {
            enable: false,
            listen_addr: String::from_str("0.0.0.0:50052"),
            database_url: String::from_str("sqlite:///tmp/kodate/state.db"),
        }
    }
}

/// Whether a time-format setting asks for a 24-hour clock: exactly `"24h"`.
pub fn is_24h(time_format: &str) -> (r: bool)
    ensures
        r == (time_format@ == "24h"@),
{
    String::from_str(time_format) == String::from_str("24h")
}

} // verus!
