//! Settings bundles consumed by the break timer engine: per-kind timer
//! configuration, the daily usage limit, the enforcement level, and the
//! notification / startup settings that the core carries but does not
//! interpret.

use vstd::prelude::*;

verus! {

/// Configuration of one interval-driven break kind (micro or rest).
#[derive(Clone, Debug, PartialEq, Eq)]
pub struct BreakTimerSettings {
    pub interval_seconds: u64,
    pub duration_seconds: u64,
    pub snooze_seconds: u64,
    pub enabled: bool,
}

impl BreakTimerSettings {
    /// A timer configuration with the given intervals, enabled.
    pub fn new(interval_seconds: u64, duration_seconds: u64, snooze_seconds: u64) -> (s: Self)
        ensures
            s == (BreakTimerSettings {
                interval_seconds,
                duration_seconds,
                snooze_seconds,
                enabled: true,
            }),
    {
        Self { interval_seconds, duration_seconds, snooze_seconds, enabled: true }
    }
}

/// Configuration of the daily usage limit and of the local instant at which
/// each day's counters reset.
#[derive(Clone, Debug, PartialEq, Eq)]
pub struct DailyLimitSettings {
    pub limit_seconds: u64,
    pub snooze_seconds: u64,
    pub reset_hour_local: u8,
    pub reset_minute_local: u8,
    pub enabled: bool,
}

impl DailyLimitSettings {
    /// The daily reset instant, as seconds past local midnight.
    pub open spec fn spec_reset_offset(&self) -> int {
        self.reset_hour_local * 3600 + self.reset_minute_local * 60
    }

    /// The daily reset instant, as seconds past local midnight.
    pub fn reset_offset_seconds(&self) -> (r: u64)
        ensures
            r == self.spec_reset_offset(),
    {
        (self.reset_hour_local as u64) * 3600 + (self.reset_minute_local as u64) * 60
    }
}

/// How strongly a due break is enforced on the user.
#[derive(Clone, Copy, Debug, PartialEq, Eq, Structural)]
pub enum BlockLevel {
    Soft,
    Medium,
    Strict,
}

/// Notification preferences; carried for the host, not interpreted here.
#[derive(Clone, Debug, PartialEq, Eq)]
pub struct NotificationSettings {
    pub desktop_enabled: bool,
    pub overlay_enabled: bool,
    pub sound_enabled: bool,
    pub sound_theme: String,
}

/// Autostart preferences; carried for the host, not interpreted here.
#[derive(Clone, Debug, PartialEq, Eq)]
pub struct StartupSettings {
    pub xdg_autostart_enabled: bool,
    pub systemd_user_enabled: bool,
}

/// The full settings bundle the engine runs under.
#[derive(Clone, Debug, PartialEq, Eq)]
pub struct Settings {
    pub micro: BreakTimerSettings,
    pub rest: BreakTimerSettings,
    pub daily_limit: DailyLimitSettings,
    pub block_level: BlockLevel,
    pub notifications: NotificationSettings,
    pub startup: StartupSettings,
    pub active_profile_id: String,
}

impl Default for Settings {
    /// The stock configuration: a 20 s micro break every 180 s, a 300 s rest
    /// break every 2700 s, a 4 h daily limit resetting at 04:00 local time,
    /// medium enforcement.
    fn default() -> (s: Self)
        ensures
            s.micro == (BreakTimerSettings {
                interval_seconds: 180u64,
                duration_seconds: 20u64,
                snooze_seconds: 150u64,
                enabled: true,
            }),
            s.rest == (BreakTimerSettings {
                interval_seconds: 2700u64,
                duration_seconds: 300u64,
                snooze_seconds: 180u64,
                enabled: true,
            }),
            s.daily_limit == (DailyLimitSettings {
                limit_seconds: 14400u64,
                snooze_seconds: 1200u64,
                reset_hour_local: 4u8,
                reset_minute_local: 0u8,
                enabled: true,
            }),
            s.block_level == BlockLevel::Medium,
            s.notifications.desktop_enabled,
            s.notifications.overlay_enabled,
            s.notifications.sound_enabled,
            s.notifications.sound_theme@ == "default"@,
            s.startup.xdg_autostart_enabled,
            !s.startup.systemd_user_enabled,
            s.active_profile_id@ == "default"@,
    {
        Settings {
            micro: BreakTimerSettings::new(180, 20, 150),
            rest: BreakTimerSettings::new(2700, 300, 180),
            daily_limit: DailyLimitSettings {
                limit_seconds: 14400,
                snooze_seconds: 1200,
                reset_hour_local: 4,
                reset_minute_local: 0,
                enabled: true,
            },
            block_level: BlockLevel::Medium,
            notifications: NotificationSettings {
                desktop_enabled: true,
                overlay_enabled: true,
                sound_enabled: true,
                sound_theme: "default".to_owned(),
            },
            startup: StartupSettings { xdg_autostart_enabled: true, systemd_user_enabled: false },
            active_profile_id: "default".to_owned(),
        }
    }
}

} // verus!
