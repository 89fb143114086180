use time_guardian::config::{Config, DayConfig, UserConfig, Weekday};
use time_guardian::run::{resolve_idle_reading, issue_warnings, tick_user, TickOutcome};
use time_guardian::time_slot::TimeSlot;
use time_guardian::tracker::Tracker;

const TODAY: u64 = 20000;
const NOON: u32 = 43200;
const IDLE_THRESHOLD: u64 = 10;

fn alice_config(total_allowed: u64, slots: Option<Vec<TimeSlot>>) -> Config {
    Config(vec![(
        "alice".to_string(),
        UserConfig {
            short_warning: 30,
            long_warning: 300,
            rampup: None,
            days: vec![(Weekday::all(), DayConfig { total_allowed, time_slots: slots })],
        },
    )])
}

fn active_tick(
    tracker: &mut Tracker,
    config: &Config,
    elapsed: u64,
) -> Option<TickOutcome> {
    tick_user(
        tracker, config, "alice", true, 0, IDLE_THRESHOLD, elapsed, TODAY, NOON,
    )
}

#[test]
fn warning_fires_exactly_at_the_short_threshold_without_logout() {
    // One hour allowed, short warning at 30 s. After exactly 3570 s of
    // active time the next tick leaves exactly 30 s: a warning, no logout.
    let config = alice_config(3600, None);
    let mut tracker = Tracker::new(&config, TODAY);
    let outcome = active_tick(&mut tracker, &config, 3570);
    assert_eq!(outcome, Some(TickOutcome::Warn(30)));
    assert_eq!(tracker.user_counter("alice").total_spent, 3570);
}

#[test]
fn exhausted_total_triggers_logout_without_double_counting() {
    let config = alice_config(3600, None);
    let mut tracker = Tracker::new(&config, TODAY);
    assert_eq!(active_tick(&mut tracker, &config, 3570), Some(TickOutcome::Warn(30)));
    let outcome = active_tick(&mut tracker, &config, 30);
    assert_eq!(outcome, Some(TickOutcome::Logout));
    // The ledger holds exactly the allowance, nothing beyond it.
    assert_eq!(tracker.user_counter("alice").total_spent, 3600);
}

#[test]
fn user_outside_every_slot_is_logged_out_with_time_remaining() {
    // A morning-only window; at noon the user is outside it, with almost
    // the whole daily total unspent.
    let slots = vec![TimeSlot { start: 28800, end: 36000, time: Some(3600) }];
    let config = alice_config(3600, Some(slots));
    let mut tracker = Tracker::new(&config, TODAY);
    let outcome = active_tick(&mut tracker, &config, 1);
    assert_eq!(outcome, Some(TickOutcome::Logout));
    assert_eq!(tracker.user_counter("alice").total_spent, 1);
}

#[test]
fn spent_window_budget_triggers_logout_before_the_daily_total() {
    // A full-day window with a 60 s budget inside a 3600 s day.
    let slots = vec![TimeSlot { start: 0, end: 86399, time: Some(60) }];
    let config = alice_config(3600, Some(slots));
    let mut tracker = Tracker::new(&config, TODAY);
    assert_eq!(active_tick(&mut tracker, &config, 59), Some(TickOutcome::Continue));
    let outcome = active_tick(&mut tracker, &config, 1);
    assert_eq!(outcome, Some(TickOutcome::Logout));
}

#[test]
fn inactive_user_is_not_counted() {
    let config = alice_config(3600, None);
    let mut tracker = Tracker::new(&config, TODAY);
    let outcome = tick_user(
        &mut tracker, &config, "alice", false, 0, IDLE_THRESHOLD, 60, TODAY, NOON,
    );
    assert_eq!(outcome, None);
    assert_eq!(tracker.user_counter("alice").total_spent, 0);
}

#[test]
fn idle_machine_does_not_charge_the_user() {
    let config = alice_config(3600, None);
    let mut tracker = Tracker::new(&config, TODAY);
    let outcome = tick_user(
        &mut tracker, &config, "alice", true, IDLE_THRESHOLD, IDLE_THRESHOLD, 60, TODAY, NOON,
    );
    assert_eq!(outcome, None);
    assert_eq!(tracker.user_counter("alice").total_spent, 0);
}

#[test]
fn ordinary_tick_continues() {
    let config = alice_config(3600, None);
    let mut tracker = Tracker::new(&config, TODAY);
    assert_eq!(active_tick(&mut tracker, &config, 60), Some(TickOutcome::Continue));
}

#[test]
fn long_warning_fires_too() {
    let config = alice_config(3600, None);
    let mut tracker = Tracker::new(&config, TODAY);
    // 3300 s spent leaves exactly 300 s: the long warning.
    assert_eq!(active_tick(&mut tracker, &config, 3300), Some(TickOutcome::Warn(300)));
}

#[test]
fn issue_warnings_reports_only_exact_thresholds() {
    let config = alice_config(3600, None);
    let mut tracker = Tracker::new(&config, TODAY);
    let weekday = Weekday::from_day(TODAY);
    tracker.add("alice", 3569, NOON);
    assert_eq!(issue_warnings(&tracker, config.user("alice"), "alice", weekday), None);
    tracker.add("alice", 1, NOON);
    assert_eq!(
        issue_warnings(&tracker, config.user("alice"), "alice", weekday),
        Some(30)
    );
    tracker.add("alice", 1, NOON);
    assert_eq!(issue_warnings(&tracker, config.user("alice"), "alice", weekday), None);
}

#[test]
fn idle_reading_is_used_when_it_succeeds() {
    assert_eq!(resolve_idle_reading(Some(42), 0), (42, false, 0));
    assert_eq!(resolve_idle_reading(Some(0), 3), (0, false, 3));
}

#[test]
fn failed_idle_reading_fails_open_and_logging_is_capped() {
    // Zero idle (the user stays counted), logged only three times.
    assert_eq!(resolve_idle_reading(None, 0), (0, true, 1));
    assert_eq!(resolve_idle_reading(None, 1), (0, true, 2));
    assert_eq!(resolve_idle_reading(None, 2), (0, true, 3));
    assert_eq!(resolve_idle_reading(None, 3), (0, false, 3));
    assert_eq!(resolve_idle_reading(None, 100), (0, false, 100));
}
