use time_guardian::time_slot::TimeSlot;

fn hms(h: u32, m: u32) -> u32 {
    h * 3600 + m * 60
}

#[test]
fn wrapping_slot_contains_evening_and_early_morning() {
    let slot = TimeSlot { start: hms(22, 0), end: hms(6, 0), time: None };
    assert!(slot.contains(hms(23, 30)));
    assert!(slot.contains(hms(2, 0)));
}

#[test]
fn wrapping_slot_rule_admits_every_moment() {
    // The preserved wrap rule is `t <= start || t >= end`; on a window with
    // `end < start` that admits the whole day, noon included.
    let slot = TimeSlot { start: hms(22, 0), end: hms(6, 0), time: None };
    assert!(slot.contains(hms(12, 0)));
    for h in 0..24 {
        assert!(slot.contains(hms(h, 0)));
    }
}

#[test]
fn non_wrapping_slot_boundaries_are_inclusive() {
    let slot = TimeSlot { start: hms(8, 0), end: hms(17, 0), time: None };
    assert!(slot.contains(hms(8, 0)));
    assert!(slot.contains(hms(17, 0)));
    assert!(!slot.contains(hms(8, 0) - 60)); // 07:59
    assert!(!slot.contains(hms(17, 0) + 1));
    assert!(slot.contains(hms(12, 0)));
}

#[test]
fn slot_equality_ignores_allotted_and_spent_amounts() {
    let a = TimeSlot { start: hms(8, 0), end: hms(17, 0), time: Some(100) };
    let b = TimeSlot { start: hms(8, 0), end: hms(17, 0), time: Some(9999) };
    let c = TimeSlot { start: hms(8, 0), end: hms(17, 0), time: None };
    assert_eq!(a, b);
    assert_eq!(a, c);
}

#[test]
fn slots_with_different_windows_are_unequal() {
    let a = TimeSlot { start: hms(8, 0), end: hms(17, 0), time: Some(100) };
    let b = TimeSlot { start: hms(8, 0), end: hms(18, 0), time: Some(100) };
    let c = TimeSlot { start: hms(9, 0), end: hms(17, 0), time: Some(100) };
    assert_ne!(a, b);
    assert_ne!(a, c);
}

#[test]
fn zero_time_resets_the_carried_duration_only() {
    let a = TimeSlot { start: hms(8, 0), end: hms(17, 0), time: Some(100) };
    let z = a.zero_time();
    assert_eq!(z.start, a.start);
    assert_eq!(z.end, a.end);
    assert_eq!(z.time, Some(0));
}

#[test]
fn default_slot_covers_the_whole_day() {
    let d = TimeSlot::default();
    assert_eq!(d.start, 0);
    assert_eq!(d.end, 86399);
    assert_eq!(d.time, Some(86400));
    assert!(d.contains(0));
    assert!(d.contains(86399));
}
