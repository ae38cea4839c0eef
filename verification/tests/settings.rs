use lazaro_core::config::{BlockLevel, BreakTimerSettings, Settings};
use lazaro_core::dto::{
    break_kind_to_string, format_reset_time, parse_break_kind, parse_reset_time, settings_to_core,
    ParseError, SettingsDto,
};
use lazaro_core::timer::BreakKind;

fn sample_dto() -> SettingsDto {
    SettingsDto {
        micro_interval_seconds: 200,
        micro_duration_seconds: 25,
        micro_snooze_seconds: 100,
        rest_interval_seconds: 3000,
        rest_duration_seconds: 400,
        rest_snooze_seconds: 200,
        daily_limit_seconds: 20_000,
        daily_limit_snooze_seconds: 900,
        daily_reset_time: "04:30".to_owned(),
        block_level: "strict".to_owned(),
        desktop_notifications: true,
        overlay_notifications: false,
        sound_notifications: true,
        sound_theme: "chime".to_owned(),
        startup_xdg: true,
        startup_systemd_user: false,
        active_profile_id: "default".to_owned(),
    }
}

#[test]
fn default_settings_match_stock_configuration() {
    let s = Settings::default();
    assert_eq!(s.micro.interval_seconds, 180);
    assert_eq!(s.micro.duration_seconds, 20);
    assert_eq!(s.micro.snooze_seconds, 150);
    assert_eq!(s.rest.interval_seconds, 2700);
    assert_eq!(s.rest.duration_seconds, 300);
    assert_eq!(s.rest.snooze_seconds, 180);
    assert_eq!(s.daily_limit.limit_seconds, 14_400);
    assert_eq!(s.daily_limit.reset_hour_local, 4);
    assert_eq!(s.daily_limit.reset_minute_local, 0);
    assert_eq!(s.block_level, BlockLevel::Medium);
    assert_eq!(s.active_profile_id, "default");
}

#[test]
fn timer_settings_new_enables_the_kind() {
    let t = BreakTimerSettings::new(60, 10, 30);
    assert_eq!(t.interval_seconds, 60);
    assert_eq!(t.duration_seconds, 10);
    assert_eq!(t.snooze_seconds, 30);
    assert!(t.enabled);
}

#[test]
fn reset_offset_combines_hour_and_minute() {
    let s = Settings::default();
    assert_eq!(s.daily_limit.reset_offset_seconds(), 4 * 3600);
}

#[test]
fn parse_reset_time_accepts_valid_times() {
    assert_eq!(parse_reset_time("04:30"), Ok((4, 30)));
    assert_eq!(parse_reset_time("0:0"), Ok((0, 0)));
    assert_eq!(parse_reset_time("23:59"), Ok((23, 59)));
    assert_eq!(parse_reset_time("+07:05"), Ok((7, 5)));
}

#[test]
fn parse_reset_time_rejects_malformed_times() {
    for bad in ["", "12", "12:34:56", "aa:bb", "24:00", "12:60", ":30", "12:", "1 2:30"] {
        match parse_reset_time(bad) {
            Err(ParseError::InvalidResetTime(t)) => assert_eq!(t, bad),
            other => panic!("expected invalid reset time for {bad:?}, got {other:?}"),
        }
    }
}

#[test]
fn settings_to_core_maps_every_field() {
    let dto = sample_dto();
    let s = settings_to_core(&dto).expect("valid settings");
    assert_eq!(s.micro.interval_seconds, 200);
    assert_eq!(s.micro.duration_seconds, 25);
    assert_eq!(s.micro.snooze_seconds, 100);
    assert!(s.micro.enabled);
    assert_eq!(s.rest.interval_seconds, 3000);
    assert!(s.rest.enabled);
    assert_eq!(s.daily_limit.limit_seconds, 20_000);
    assert_eq!(s.daily_limit.snooze_seconds, 900);
    assert_eq!(s.daily_limit.reset_hour_local, 4);
    assert_eq!(s.daily_limit.reset_minute_local, 30);
    assert!(s.daily_limit.enabled);
    assert_eq!(s.block_level, BlockLevel::Strict);
    assert!(s.notifications.desktop_enabled);
    assert!(!s.notifications.overlay_enabled);
    assert_eq!(s.notifications.sound_theme, "chime");
    assert!(s.startup.xdg_autostart_enabled);
    assert!(!s.startup.systemd_user_enabled);
    assert_eq!(s.active_profile_id, "default");
}

#[test]
fn settings_to_core_block_levels() {
    let mut dto = sample_dto();
    dto.block_level = "soft".to_owned();
    assert_eq!(settings_to_core(&dto).unwrap().block_level, BlockLevel::Soft);
    dto.block_level = "medium".to_owned();
    assert_eq!(settings_to_core(&dto).unwrap().block_level, BlockLevel::Medium);
    dto.block_level = "sideways".to_owned();
    assert_eq!(settings_to_core(&dto).unwrap().block_level, BlockLevel::Medium);
}

#[test]
fn settings_to_core_rejects_bad_reset_time() {
    let mut dto = sample_dto();
    dto.daily_reset_time = "99:99".to_owned();
    match settings_to_core(&dto) {
        Err(ParseError::InvalidResetTime(t)) => assert_eq!(t, "99:99"),
        other => panic!("expected invalid reset time, got {other:?}"),
    }
}

#[test]
fn break_kind_names_round_trip() {
    for kind in [BreakKind::Micro, BreakKind::Rest, BreakKind::DailyLimit] {
        let name = break_kind_to_string(kind);
        assert_eq!(parse_break_kind(&name), Ok(kind));
    }
    assert_eq!(break_kind_to_string(BreakKind::Micro), "micro");
    assert_eq!(break_kind_to_string(BreakKind::Rest), "rest");
    assert_eq!(break_kind_to_string(BreakKind::DailyLimit), "daily_limit");
}

#[test]
fn format_reset_time_round_trips() {
    assert_eq!(format_reset_time(4, 30), "04:30");
    assert_eq!(format_reset_time(0, 0), "00:00");
    assert_eq!(format_reset_time(23, 59), "23:59");
    for (h, m) in [(0, 0), (4, 30), (9, 5), (23, 59)] {
        assert_eq!(parse_reset_time(&format_reset_time(h, m)), Ok((h, m)));
    }
}

#[test]
fn parse_break_kind_rejects_unknown_names() {
    match parse_break_kind("lunch") {
        Err(ParseError::InvalidBreakKind(t)) => assert_eq!(t, "lunch"),
        other => panic!("expected invalid break kind, got {other:?}"),
    }
}
