use time_guardian::rampup::{effective_allowance, Rampup, Speed, MAX_ALLOWANCE};

#[test]
fn clamp_pulls_high_percentage_down_to_100() {
    let r = Rampup { speed: Speed::Percentage(250), start_date: 0 };
    let clamped = r.clamp_percentage();
    assert_eq!(clamped.speed, Speed::Percentage(100));
    assert_eq!(clamped.start_date, 0);
}

#[test]
fn clamp_pulls_low_percentage_up_to_minus_100() {
    let r = Rampup { speed: Speed::Percentage(-250), start_date: 7 };
    assert_eq!(r.clamp_percentage().speed, Speed::Percentage(-100));
}

#[test]
fn clamp_keeps_in_range_percentage() {
    let r = Rampup { speed: Speed::Percentage(42), start_date: 7 };
    assert_eq!(r.clamp_percentage().speed, Speed::Percentage(42));
}

#[test]
fn clamp_is_idempotent() {
    let r = Rampup { speed: Speed::Percentage(1000), start_date: 3 };
    let once = r.clamp_percentage();
    let twice = once.clamp_percentage();
    assert_eq!(once.speed, twice.speed);
    assert_eq!(once.start_date, twice.start_date);
}

#[test]
fn clamp_leaves_constant_seconds_alone() {
    let r = Rampup { speed: Speed::ConstantSeconds(-500), start_date: 3 };
    assert_eq!(r.clamp_percentage().speed, Speed::ConstantSeconds(-500));
}

#[test]
fn zero_percentage_is_a_no_op() {
    assert_eq!(effective_allowance(500, 100, 200, Speed::Percentage(0)), 500);
    assert_eq!(effective_allowance(500, 100, 100, Speed::Percentage(0)), 500);
    assert_eq!(effective_allowance(0, 0, 10_000, Speed::Percentage(0)), 0);
}

#[test]
fn hundred_percent_doubles_each_day() {
    // Two days of doubling: 100 s -> 200 s -> 400 s.
    assert_eq!(effective_allowance(100, 0, 2, Speed::Percentage(100)), 400);
}

#[test]
fn minus_hundred_percent_collapses_to_zero_on_day_one() {
    assert_eq!(effective_allowance(3600, 10, 11, Speed::Percentage(-100)), 0);
    assert_eq!(effective_allowance(3600, 10, 500, Speed::Percentage(-100)), 0);
}

#[test]
fn compounding_rounds_half_away_from_zero() {
    // 10 s at 5 % is 10.5 s, which rounds up to 11.
    assert_eq!(effective_allowance(10, 0, 1, Speed::Percentage(5)), 11);
}

#[test]
fn constant_seconds_accumulate_per_day() {
    assert_eq!(effective_allowance(100, 10, 15, Speed::ConstantSeconds(7)), 135);
}

#[test]
fn constant_seconds_monotonic_in_today() {
    let mut prev = 0;
    for today in 0..40 {
        let now = effective_allowance(1000, 10, today, Speed::ConstantSeconds(60));
        assert!(now >= prev);
        prev = now;
    }
}

#[test]
fn rampup_not_started_returns_base() {
    assert_eq!(effective_allowance(100, 10, 5, Speed::ConstantSeconds(7)), 100);
    assert_eq!(effective_allowance(100, 10, 10, Speed::ConstantSeconds(7)), 100);
    assert_eq!(effective_allowance(100, 10, 9, Speed::Percentage(50)), 100);
}

#[test]
fn negative_constant_seconds_floor_at_zero() {
    assert_eq!(effective_allowance(100, 0, 1, Speed::ConstantSeconds(-200)), 0);
}

#[test]
fn growth_saturates_at_the_cap() {
    let r = effective_allowance(MAX_ALLOWANCE, 0, 3, Speed::ConstantSeconds(1_000_000));
    assert_eq!(r, MAX_ALLOWANCE);
    let p = effective_allowance(MAX_ALLOWANCE, 0, 50, Speed::Percentage(100));
    assert_eq!(p, MAX_ALLOWANCE);
}
