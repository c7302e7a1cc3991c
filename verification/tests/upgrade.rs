use bigbox::rules::item::Rarity;
use bigbox::rules::upgrade::{
    disenchant_value, total_upgrade_cost, upgrade_cost, upgrade_scale, MAX_UPGRADE_TIER,
};

#[test]
fn scale_at_tier_zero_is_identity() {
    assert_eq!(upgrade_scale(0), 100);
}

#[test]
fn scale_at_max_tier_is_1_4() {
    assert_eq!(upgrade_scale(MAX_UPGRADE_TIER), 140);
}

#[test]
fn scale_clamps_above_max() {
    // Defensive: anything above MAX clamps, doesn't blow up.
    assert_eq!(upgrade_scale(99), upgrade_scale(MAX_UPGRADE_TIER));
}

#[test]
fn disenchant_values_monotonic_by_rarity() {
    let v: Vec<u32> = Rarity::ALL
        .iter()
        .map(|r| disenchant_value(*r))
        .collect();
    for w in v.windows(2) {
        assert!(w[1] > w[0], "disenchant not monotonic: {v:?}");
    }
}

#[test]
fn upgrade_cost_geometric_and_capped() {
    assert_eq!(upgrade_cost(0), Some(5));
    assert_eq!(upgrade_cost(1), Some(15));
    assert_eq!(upgrade_cost(2), Some(40));
    assert_eq!(upgrade_cost(3), Some(100));
    assert_eq!(upgrade_cost(4), Some(250));
    assert_eq!(upgrade_cost(MAX_UPGRADE_TIER), None);
    // Each step strictly more expensive than the last.
    for t in 0..MAX_UPGRADE_TIER - 1 {
        assert!(upgrade_cost(t).unwrap() < upgrade_cost(t + 1).unwrap());
    }
}

#[test]
fn total_upgrade_cost_zero_to_max_is_410() {
    assert_eq!(total_upgrade_cost(0, MAX_UPGRADE_TIER), Some(410));
}

#[test]
fn total_upgrade_cost_partial_path() {
    // 0 → 3 = 5 + 15 + 40 = 60
    assert_eq!(total_upgrade_cost(0, 3), Some(60));
    // 2 → 4 = 40 + 100 = 140
    assert_eq!(total_upgrade_cost(2, 4), Some(140));
    // Same tier = 0 cost (allowed).
    assert_eq!(total_upgrade_cost(3, 3), Some(0));
    // Invalid bounds.
    assert_eq!(total_upgrade_cost(3, 2), None);
    assert_eq!(total_upgrade_cost(0, MAX_UPGRADE_TIER + 1), None);
}
