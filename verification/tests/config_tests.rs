use time_guardian::config::{Config, DayConfig, Error, UserConfig, Weekday};
use time_guardian::rampup::{Rampup, Speed};
use time_guardian::time_slot::TimeSlot;

fn all_week() -> Vec<Weekday> {
    Weekday::all()
}

fn plain_user(total_allowed: u64) -> UserConfig {
    UserConfig {
        short_warning: 30,
        long_warning: 300,
        rampup: None,
        days: vec![(all_week(), DayConfig { total_allowed, time_slots: None })],
    }
}

fn strings(names: &[&str]) -> Vec<String> {
    names.iter().map(|n| n.to_string()).collect()
}

#[test]
fn weekday_of_known_dates() {
    // 1970-01-01 was a Thursday; 2024-05-01 (day 19844) a Wednesday.
    assert_eq!(Weekday::from_day(0), Weekday::Thursday);
    assert_eq!(Weekday::from_day(3), Weekday::Sunday);
    assert_eq!(Weekday::from_day(4), Weekday::Monday);
    assert_eq!(Weekday::from_day(19844), Weekday::Wednesday);
}

#[test]
fn first_matching_weekday_group_wins() {
    let user = UserConfig {
        short_warning: 30,
        long_warning: 300,
        rampup: None,
        days: vec![
            (vec![Weekday::Saturday, Weekday::Sunday], DayConfig {
                total_allowed: 7200,
                time_slots: None,
            }),
            (all_week(), DayConfig { total_allowed: 3600, time_slots: None }),
        ],
    };
    // Sunday matches both groups; the first one wins.
    assert_eq!(user.total_allowed_today(Weekday::Sunday), 7200);
    assert_eq!(user.matching_day_groups(Weekday::Sunday), 2);
    // Monday matches only the catch-all group.
    assert_eq!(user.total_allowed_today(Weekday::Monday), 3600);
    assert_eq!(user.matching_day_groups(Weekday::Monday), 1);
}

#[test]
fn unmatched_weekday_falls_back_to_no_restriction() {
    let user = UserConfig {
        short_warning: 30,
        long_warning: 300,
        rampup: None,
        days: vec![(vec![Weekday::Monday], DayConfig { total_allowed: 60, time_slots: None })],
    };
    assert_eq!(user.matching_day_groups(Weekday::Friday), 0);
    let day = user.todays_config(Weekday::Friday);
    assert_eq!(day.total_allowed, 86400);
    let slots = day.time_slots.expect("default day carries one full-day slot");
    assert_eq!(slots.len(), 1);
    assert_eq!(slots[0], TimeSlot { start: 0, end: 86399, time: Some(86400) });
}

#[test]
fn fix_values_drops_root_and_clamps_percentages() {
    let mut hot = plain_user(3600);
    hot.rampup = Some(Rampup { speed: Speed::Percentage(500), start_date: 10 });
    let cfg = Config(vec![
        ("root".to_string(), plain_user(60)),
        ("alice".to_string(), hot),
    ]);
    let fixed = cfg.fix_values();
    assert_eq!(fixed.0.len(), 1);
    assert_eq!(fixed.0[0].0, "alice");
    assert_eq!(
        fixed.0[0].1.rampup,
        Some(Rampup { speed: Speed::Percentage(100), start_date: 10 })
    );
}

#[test]
fn validate_accepts_known_users() {
    let cfg = Config(vec![
        ("alice".to_string(), plain_user(3600)),
        ("bob".to_string(), plain_user(60)),
    ]);
    let checked = cfg.validate(&strings(&["bob", "alice", "carol"]));
    let ok = checked.expect("both users exist");
    assert_eq!(ok.0.len(), 2);
}

#[test]
fn validate_rejects_the_first_unknown_user() {
    let cfg = Config(vec![
        ("alice".to_string(), plain_user(3600)),
        ("mallory".to_string(), plain_user(60)),
        ("eve".to_string(), plain_user(60)),
    ]);
    match cfg.validate(&strings(&["alice"])) {
        Ok(_) => panic!("mallory does not exist; the load must fail"),
        Err(Error::UserDoesntExist(name)) => {
            assert_eq!(name, "mallory");
        },
    }
}

#[test]
fn error_message_names_the_user() {
    let e = Error::UserDoesntExist("mallory".to_string());
    assert_eq!(e.message(), "User mallory doesn't exist");
}

#[test]
fn lookup_by_name() {
    let cfg = Config(vec![
        ("alice".to_string(), plain_user(3600)),
        ("bob".to_string(), plain_user(60)),
    ]);
    assert!(cfg.contains_user("alice"));
    assert!(cfg.contains_user("bob"));
    assert!(!cfg.contains_user("carol"));
    assert_eq!(cfg.user("bob").total_allowed_today(Weekday::Monday), 60);
    assert_eq!(cfg.allowed("alice", Weekday::Monday), 3600);
    let names = cfg.users();
    assert_eq!(names, strings(&["alice", "bob"]));
    assert_eq!(cfg.iter().len(), 2);
}

#[test]
fn default_configuration_reads_as_itself() {
    let users = strings(&["alice", "bob"]);
    let a = Config::default_for(&users);
    let b = Config::default_for(&users);
    assert!(a.same_as(&b));
    assert!(!Config::template_needs_rewrite(Some(&a), &b));
    assert!(Config::template_needs_rewrite(None, &b));
}

#[test]
fn template_rewrite_when_stored_differs() {
    let users = strings(&["alice"]);
    let stored = Config(vec![("alice".to_string(), plain_user(3600))]);
    let default_config = Config::default_for(&users);
    assert!(Config::template_needs_rewrite(Some(&stored), &default_config));
}

#[test]
fn default_for_gives_every_user_the_default_settings() {
    let cfg = Config::default_for(&strings(&["alice", "bob"]));
    assert_eq!(cfg.0.len(), 2);
    for (_, user) in cfg.iter() {
        assert_eq!(user.short_warning, 30);
        assert_eq!(user.long_warning, 300);
        assert_eq!(
            user.rampup,
            Some(Rampup { speed: Speed::ConstantSeconds(1), start_date: 19844 })
        );
        assert_eq!(user.days.len(), 1);
        assert_eq!(user.days[0].0.len(), 7);
        assert_eq!(user.days[0].1.total_allowed, 86400);
    }
}

#[test]
fn startup_chain_prefers_primary_then_previous_then_fallback() {
    let primary = Config(vec![("a".to_string(), plain_user(1))]);
    let previous = Config(vec![("b".to_string(), plain_user(2))]);
    let fallback = Config(vec![("c".to_string(), plain_user(3))]);

    let chosen = Config::choose_startup_config(
        Some(primary),
        Some(previous.clone()),
        fallback.clone(),
    );
    assert_eq!(chosen.0[0].0, "a");

    let chosen = Config::choose_startup_config(None, Some(previous), fallback.clone());
    assert_eq!(chosen.0[0].0, "b");

    let chosen = Config::choose_startup_config(None, None, fallback);
    assert_eq!(chosen.0[0].0, "c");
}

#[test]
fn reload_swaps_in_the_new_config_and_hands_back_the_old() {
    let current = Config(vec![("old".to_string(), plain_user(1))]);
    let fresh = Config(vec![("new".to_string(), plain_user(2))]);
    let (active, to_store) = Config::choose_reloaded(current, Some(fresh));
    assert_eq!(active.0[0].0, "new");
    assert_eq!(to_store.expect("previous config must be stored").0[0].0, "old");

    let current = Config(vec![("old".to_string(), plain_user(1))]);
    let (active, to_store) = Config::choose_reloaded(current, None);
    assert_eq!(active.0[0].0, "old");
    assert!(to_store.is_none());
}

#[test]
fn apply_rampup_adjusts_todays_allowance() {
    let mut user = plain_user(1000);
    user.rampup = Some(Rampup { speed: Speed::ConstantSeconds(10), start_date: 0 });
    let cfg = Config(vec![("alice".to_string(), user)]);
    let today = 5;
    assert!(cfg.can_apply_rampup(today));
    let ramped = cfg.apply_rampup(today);
    let weekday = Weekday::from_day(today);
    assert_eq!(ramped.allowed("alice", weekday), 1050);
    // Warnings and the rule itself are kept.
    assert_eq!(ramped.user("alice").short_warning, 30);
    assert_eq!(
        ramped.user("alice").rampup,
        Some(Rampup { speed: Speed::ConstantSeconds(10), start_date: 0 })
    );
}

#[test]
fn apply_rampup_without_a_rule_changes_nothing() {
    let cfg = Config(vec![("alice".to_string(), plain_user(1000))]);
    let ramped = cfg.apply_rampup(5);
    assert_eq!(ramped.allowed("alice", Weekday::from_day(5)), 1000);
}

#[test]
fn now_within_timeslot_cases() {
    let windowed = UserConfig {
        short_warning: 30,
        long_warning: 300,
        rampup: None,
        days: vec![(
            all_week(),
            DayConfig {
                total_allowed: 3600,
                time_slots: Some(vec![TimeSlot { start: 28800, end: 61200, time: Some(3600) }]),
            },
        )],
    };
    assert!(windowed.now_within_timeslot(Weekday::Monday, 30000));
    assert!(!windowed.now_within_timeslot(Weekday::Monday, 7200));
    // No windowing at all: every moment is within.
    assert!(plain_user(3600).now_within_timeslot(Weekday::Monday, 7200));
}
