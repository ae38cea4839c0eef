use lazaro_core::config::{BlockLevel, Settings};
use lazaro_core::timer::{BreakKind, EngineEvent, TimerEngine};

#[test]
fn micro_break_becomes_due_after_interval() {
    let settings = Settings::default();
    let mut engine = TimerEngine::new(settings, 0);

    let events = engine.on_activity(180, 180);
    assert_eq!(events, vec![EngineEvent::BreakDue(BreakKind::Micro)]);
}

#[test]
fn strict_mode_autostarts_break() {
    let mut settings = Settings::default();
    settings.block_level = BlockLevel::Strict;
    let mut engine = TimerEngine::new(settings, 0);

    let events = engine.on_activity(180, 180);
    assert_eq!(
        events,
        vec![
            EngineEvent::BreakDue(BreakKind::Micro),
            EngineEvent::BreakStarted(BreakKind::Micro)
        ]
    );
}

#[test]
fn snooze_delays_due_event() {
    let settings = Settings::default();
    let mut engine = TimerEngine::new(settings, 0);

    let _ = engine.on_activity(180, 180);
    engine.snooze(BreakKind::Micro, 180);

    let events = engine.on_activity(1, 200);
    assert!(events.is_empty());

    let events = engine.on_activity(1, 400);
    assert_eq!(events, vec![EngineEvent::BreakDue(BreakKind::Micro)]);
}

#[test]
fn daily_reset_resets_limit_counter() {
    let settings = Settings::default();
    let mut engine = TimerEngine::new(settings, 0);

    let _ = engine.on_activity(14_400, 10_000);
    let events = engine.on_activity(1, 200_000);

    assert!(events.contains(&EngineEvent::DailyReset));
    assert!(!events.contains(&EngineEvent::BreakDue(BreakKind::DailyLimit)));
}

#[test]
fn next_break_eta_prefers_earliest_kind() {
    let settings = Settings::default();
    let mut engine = TimerEngine::new(settings, 0);

    let _ = engine.on_activity(120, 120);
    let (kind, eta) = engine.next_break_eta(120).expect("expected eta");
    assert_eq!(kind, BreakKind::Micro);
    assert_eq!(eta, 60);
}

#[test]
fn next_break_eta_accounts_for_snooze() {
    let settings = Settings::default();
    let mut engine = TimerEngine::new(settings, 0);

    let _ = engine.on_activity(180, 180);
    let _ = engine.snooze(BreakKind::Micro, 180);

    let (kind, eta) = engine.next_break_eta(200).expect("expected eta");
    assert_eq!(kind, BreakKind::Micro);
    assert_eq!(eta, 130);
}

#[test]
fn zero_activity_advances_nothing() {
    let settings = Settings::default();
    let mut engine = TimerEngine::new(settings, 0);

    let _ = engine.on_activity(100, 100);
    let events = engine.on_activity(0, 150);
    assert!(events.is_empty());
    assert_eq!(engine.micro_active, 100);
    assert_eq!(engine.rest_active, 100);
    assert_eq!(engine.daily_active, 100);
}

#[test]
fn zero_activity_still_detects_daily_reset() {
    let settings = Settings::default();
    let mut engine = TimerEngine::new(settings, 0);

    let _ = engine.on_activity(100, 1_000);
    let events = engine.on_activity(0, 200_000);
    assert_eq!(events, vec![EngineEvent::DailyReset]);
    assert_eq!(engine.micro_active, 100);
    assert_eq!(engine.rest_active, 100);
    assert_eq!(engine.daily_active, 0);
}

#[test]
fn micro_due_fires_exactly_once_at_cumulative_interval() {
    let settings = Settings::default();
    let mut engine = TimerEngine::new(settings, 0);

    let events = engine.on_activity(179, 179);
    assert!(events.is_empty());

    let events = engine.on_activity(1, 180);
    assert_eq!(events, vec![EngineEvent::BreakDue(BreakKind::Micro)]);
}

#[test]
fn snooze_returns_deadline_and_expires() {
    let settings = Settings::default();
    let mut engine = TimerEngine::new(settings, 0);

    let _ = engine.on_activity(180, 180);
    let event = engine.snooze(BreakKind::Micro, 180);
    assert_eq!(event, Some(EngineEvent::BreakSnoozed(BreakKind::Micro, 330)));

    let events = engine.on_activity(1, 329);
    assert!(events.is_empty());

    let events = engine.on_activity(1, 330);
    assert_eq!(events, vec![EngineEvent::BreakDue(BreakKind::Micro)]);
}

#[test]
fn start_break_sets_duration_and_blocks_counters() {
    let settings = Settings::default();
    let mut engine = TimerEngine::new(settings, 0);

    let events = engine.start_break(BreakKind::Micro);
    assert_eq!(events, vec![EngineEvent::BreakStarted(BreakKind::Micro)]);
    assert_eq!(engine.active_break_info(), Some((BreakKind::Micro, 20)));

    // A second start is a no-op while a break is running.
    let events = engine.start_break(BreakKind::Rest);
    assert!(events.is_empty());

    // Counters do not advance during an active break.
    let events = engine.on_activity(50, 50);
    assert!(events.is_empty());
    assert_eq!(engine.micro_active, 0);
}

#[test]
fn daily_limit_break_runs_sixty_seconds() {
    let settings = Settings::default();
    let mut engine = TimerEngine::new(settings, 0);

    let _ = engine.start_break(BreakKind::DailyLimit);
    assert_eq!(engine.active_break_info(), Some((BreakKind::DailyLimit, 60)));
}

#[test]
fn tick_break_counts_down_and_completes() {
    let settings = Settings::default();
    let mut engine = TimerEngine::new(settings, 0);

    // Ticking with no break in progress is a no-op.
    assert!(engine.tick_break(5).is_empty());

    let _ = engine.start_break(BreakKind::Micro);
    let events = engine.tick_break(5);
    assert!(events.is_empty());
    assert_eq!(engine.active_break_info(), Some((BreakKind::Micro, 15)));

    let events = engine.tick_break(15);
    assert_eq!(events, vec![EngineEvent::BreakCompleted(BreakKind::Micro)]);
    assert_eq!(engine.active_break_info(), None);
}

#[test]
fn completing_rest_discharges_micro_counter() {
    let settings = Settings::default();
    let mut engine = TimerEngine::new(settings, 0);

    let _ = engine.on_activity(100, 100);
    let _ = engine.start_break(BreakKind::Rest);
    let events = engine.tick_break(300);
    assert_eq!(events, vec![EngineEvent::BreakCompleted(BreakKind::Rest)]);
    assert_eq!(engine.micro_active, 0);
    assert_eq!(engine.rest_active, 0);

    let events = engine.on_activity(179, 500);
    assert!(events.is_empty());

    let events = engine.on_activity(1, 501);
    assert_eq!(events, vec![EngineEvent::BreakDue(BreakKind::Micro)]);
}

#[test]
fn daily_reset_leaves_other_counters_untouched() {
    let settings = Settings::default();
    let mut engine = TimerEngine::new(settings, 0);

    let _ = engine.on_activity(150, 1_000);
    let events = engine.on_activity(0, 200_000);
    assert_eq!(events, vec![EngineEvent::DailyReset]);
    assert_eq!(engine.micro_active, 150);
    assert_eq!(engine.rest_active, 150);
    assert_eq!(engine.daily_active, 0);
}

#[test]
fn eta_is_none_while_break_active() {
    let settings = Settings::default();
    let mut engine = TimerEngine::new(settings, 0);

    let _ = engine.start_break(BreakKind::Micro);
    assert_eq!(engine.next_break_eta(10), None);
}

#[test]
fn eta_countdown_never_grows_with_time() {
    let settings = Settings::default();
    let mut engine = TimerEngine::new(settings, 0);

    let _ = engine.on_activity(120, 120);
    let (_, eta_now) = engine.next_break_eta(120).expect("expected eta");
    let (_, eta_later) = engine.next_break_eta(150).expect("expected eta");
    assert!(eta_later <= eta_now);

    // With a snooze pending, the countdown shrinks as time passes.
    let _ = engine.snooze(BreakKind::Micro, 150);
    let (_, at_200) = engine.next_break_eta(200).expect("expected eta");
    let (_, at_250) = engine.next_break_eta(250).expect("expected eta");
    assert!(at_250 <= at_200);
}

#[test]
fn eta_skips_daily_limit_when_reset_comes_first() {
    let mut settings = Settings::default();
    settings.micro.enabled = false;
    settings.rest.enabled = false;
    let mut engine = TimerEngine::new(settings, 20_000);

    // Far from the boundary the daily limit is the only candidate.
    assert_eq!(
        engine.next_break_eta(20_000),
        Some((BreakKind::DailyLimit, 14_400))
    );

    // Near the boundary the day rolls over before the limit could trigger,
    // so no estimate remains.
    assert_eq!(engine.next_break_eta(100_000), None);
}

#[test]
fn first_reset_boundary_after_epoch_fires() {
    // An engine created before the day's reset instant sees that very
    // boundary as its first rollover.
    let settings = Settings::default();
    let mut engine = TimerEngine::new(settings, 0);

    let events = engine.on_activity(0, 14_399);
    assert!(events.is_empty());

    let events = engine.on_activity(0, 14_400);
    assert_eq!(events, vec![EngineEvent::DailyReset]);

    // No second rollover until a day has passed.
    let events = engine.on_activity(0, 100_799);
    assert!(events.is_empty());
    let events = engine.on_activity(0, 100_800);
    assert_eq!(events, vec![EngineEvent::DailyReset]);
}
