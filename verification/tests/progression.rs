use bigbox::rules::progression::{
    level_for_total_xp, xp_for_next_level, xp_to_reach, MAX_LEVEL,
};

#[test]
fn level_1_starts_at_zero_xp() {
    assert_eq!(xp_to_reach(1), 0);
}

#[test]
fn xp_to_reach_is_monotonic_and_concrete() {
    // Eyeball a few checkpoints so the curve shape doesn't drift silently.
    assert_eq!(xp_to_reach(2), 100); // 1 × 2 × 50
    assert_eq!(xp_to_reach(5), 1000); // 4 × 5 × 50
    assert_eq!(xp_to_reach(10), 4500); // 9 × 10 × 50
    assert_eq!(xp_to_reach(30), 43_500); // 29 × 30 × 50

    let mut prev = 0;
    for lvl in 1..=MAX_LEVEL {
        let xp = xp_to_reach(lvl);
        assert!(xp >= prev, "non-monotonic at level {lvl}");
        prev = xp;
    }
}

#[test]
fn xp_to_reach_clamps_above_max_level() {
    assert_eq!(xp_to_reach(MAX_LEVEL), xp_to_reach(99));
}

#[test]
fn xp_for_next_level_caps_at_max() {
    assert_eq!(xp_for_next_level(MAX_LEVEL), None);
    assert_eq!(xp_for_next_level(MAX_LEVEL - 1), Some(2900)); // 29×30×50 - 28×29×50
    assert_eq!(xp_for_next_level(1), Some(100));
}

#[test]
fn level_for_total_xp_clamps_to_range() {
    assert_eq!(level_for_total_xp(0), 1);
    assert_eq!(level_for_total_xp(99), 1); // not enough for level 2
    assert_eq!(level_for_total_xp(100), 2); // exactly enough
    assert_eq!(level_for_total_xp(u64::MAX), MAX_LEVEL);
}

#[test]
fn round_trip_through_curve() {
    for lvl in 1..=MAX_LEVEL {
        let xp = xp_to_reach(lvl);
        assert_eq!(level_for_total_xp(xp), lvl, "round-trip failed at {lvl}");
    }
}

#[test]
fn one_xp_below_threshold_stays_at_previous_level() {
    // Right at level 5's threshold (1000 XP) → level 5.
    // One short → still level 4.
    assert_eq!(level_for_total_xp(1000), 5);
    assert_eq!(level_for_total_xp(999), 4);
}
