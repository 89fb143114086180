use time_guardian::config::{Config, DayConfig, UserConfig, Weekday};
use time_guardian::logging::log_error;
use time_guardian::status::{get_spent, hms_parts, remaining};
use time_guardian::tracker::Tracker;

const TODAY: u64 = 20000;

fn alice_config() -> Config {
    Config(vec![(
        "alice".to_string(),
        UserConfig {
            short_warning: 30,
            long_warning: 300,
            rampup: None,
            days: vec![(
                Weekday::all(),
                DayConfig { total_allowed: 3600, time_slots: None },
            )],
        },
    )])
}

#[test]
fn spent_reads_todays_count() {
    let mut tracker = Tracker::new(&alice_config(), TODAY);
    tracker.add("alice", 500, 43200);
    assert_eq!(get_spent(&tracker, "alice", TODAY), 500);
}

#[test]
fn spent_is_zero_when_the_ledger_is_outdated() {
    let mut tracker = Tracker::new(&alice_config(), TODAY - 1);
    tracker.add("alice", 500, 43200);
    assert_eq!(get_spent(&tracker, "alice", TODAY), 0);
}

#[test]
fn spent_marks_an_unknown_user() {
    let tracker = Tracker::new(&alice_config(), TODAY);
    assert_eq!(get_spent(&tracker, "bob", TODAY), u64::MAX);
}

#[test]
fn remaining_is_floored_at_zero() {
    assert_eq!(remaining(3600, 500), 3100);
    assert_eq!(remaining(3600, 3600), 0);
    assert_eq!(remaining(3600, 5000), 0);
    assert_eq!(remaining(0, 0), 0);
}

#[test]
fn hms_parts_split_exactly() {
    assert_eq!(hms_parts(3661), (1, 1, 1));
    assert_eq!(hms_parts(0), (0, 0, 0));
    assert_eq!(hms_parts(86399), (23, 59, 59));
    assert_eq!(hms_parts(86400), (24, 0, 0));
    assert_eq!(hms_parts(59), (0, 0, 59));
}

#[test]
fn hms_parts_format_as_a_clock() {
    let (h, m, s) = hms_parts(3750);
    assert_eq!(format!("{h:02}:{m:02}:{s:02}"), "01:02:30");
}

#[test]
fn log_error_is_silent_on_success() {
    assert_eq!(log_error(Ok(()), "storing the ledger"), None);
}

#[test]
fn log_error_joins_message_and_cause() {
    let line = log_error(Err("disk full".to_string()), "storing the ledger");
    assert_eq!(line, Some("storing the ledger: disk full".to_string()));
}
