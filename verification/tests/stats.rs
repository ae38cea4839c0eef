use lazaro_core::analytics::AnalyticsStore;
use lazaro_core::timer::{BreakKind, BreakOutcome};

#[test]
fn summarize_week_counts_breaks_and_activity() {
    let mut store = AnalyticsStore::default();
    store.record_activity(10, 120);
    store.record_activity(11, 240);
    store.record_break(10, BreakKind::Micro, BreakOutcome::Completed);
    store.record_break(11, BreakKind::Rest, BreakOutcome::Completed);
    store.record_break(11, BreakKind::Micro, BreakOutcome::Skipped);

    let weekly = store.summarize_week_ending(11);
    assert_eq!(weekly.total_active_seconds, 360);
    assert_eq!(weekly.micro_done, 1);
    assert_eq!(weekly.rest_done, 1);
    assert_eq!(weekly.skipped, 1);
}

#[test]
fn week_window_excludes_seventh_day_back() {
    let mut store = AnalyticsStore::default();
    store.record_activity(4, 500);
    store.record_activity(5, 70);
    store.record_activity(11, 30);

    // Days 5 through 11 are inside the window ending at 11; day 4 is not.
    let weekly = store.summarize_week_ending(11);
    assert_eq!(weekly.total_active_seconds, 100);
}

#[test]
fn empty_store_summarizes_to_zero() {
    let store = AnalyticsStore::default();
    let weekly = store.summarize_week_ending(0);
    assert_eq!(weekly.total_active_seconds, 0);
    assert_eq!(weekly.micro_done, 0);
    assert_eq!(weekly.rest_done, 0);
    assert_eq!(weekly.daily_limit_hits, 0);
    assert_eq!(weekly.skipped, 0);
}

#[test]
fn snoozed_outcome_is_not_recorded() {
    let mut store = AnalyticsStore::default();
    store.record_break(3, BreakKind::Micro, BreakOutcome::Snoozed);
    store.record_break(3, BreakKind::Rest, BreakOutcome::Snoozed);

    let weekly = store.summarize_week_ending(3);
    assert_eq!(weekly.micro_done, 0);
    assert_eq!(weekly.rest_done, 0);
    assert_eq!(weekly.skipped, 0);
}

#[test]
fn skip_counter_is_shared_across_kinds() {
    let mut store = AnalyticsStore::default();
    store.record_break(2, BreakKind::Micro, BreakOutcome::Skipped);
    store.record_break(2, BreakKind::Rest, BreakOutcome::Skipped);
    store.record_break(2, BreakKind::DailyLimit, BreakOutcome::Skipped);

    let weekly = store.summarize_week_ending(2);
    assert_eq!(weekly.skipped, 3);
    assert_eq!(weekly.micro_done, 0);
}

#[test]
fn daily_limit_completion_counts_as_hit() {
    let mut store = AnalyticsStore::default();
    store.record_break(7, BreakKind::DailyLimit, BreakOutcome::Completed);
    let weekly = store.summarize_week_ending(7);
    assert_eq!(weekly.daily_limit_hits, 1);
}

#[test]
fn activity_accumulates_saturating() {
    let mut store = AnalyticsStore::default();
    store.record_activity(1, u64::MAX);
    store.record_activity(1, 5);

    let weekly = store.summarize_week_ending(1);
    assert_eq!(weekly.total_active_seconds, u64::MAX);
}

#[test]
fn negative_day_indexes_are_ordinary_keys() {
    let mut store = AnalyticsStore::default();
    store.record_activity(-3, 40);
    store.record_activity(0, 2);

    let weekly = store.summarize_week_ending(0);
    assert_eq!(weekly.total_active_seconds, 42);
}
