//! Rolling items and rarities.

use bigbox::rng::SeededRng;
use bigbox::rules::affix::{Affix, AffixSlot, AffixTier, StatRoll};
use bigbox::rules::item::{BaseItem, Rarity};
use bigbox::rules::rarity::roll_rarity;
use bigbox::rules::roll::{drops_fit, roll_item, rolls_fit, RollError};
use bigbox::rules::stats::ModifierKind;
use bigbox::scalar::Scalar;

fn s(x: f32) -> Scalar {
    Scalar { bits: x.to_bits() }
}

fn fixture() -> (Vec<BaseItem>, Vec<Affix>) {
    let bases = vec![BaseItem {
        id: "pistol".into(),
        name: "Pistol".into(),
        category: "weapon".into(),
        slot: "weapon".into(),
        intrinsic_stats: vec![],
        attachment_slots: vec![],
    }];
    let affixes = vec![
        Affix {
            id: "flat_phys".into(),
            name_fragment: "Sharp".into(),
            slot: AffixSlot::Prefix,
            group: "phys_flat".into(),
            tags: vec![],
            allowed_categories: vec!["weapon".into()],
            tiers: vec![
                AffixTier {
                    tier: 4,
                    ilvl_required: 1,
                    weight: 100,
                    stats: vec![StatRoll {
                        stat: "physical_damage".into(),
                        kind: ModifierKind::Flat,
                        min: s(5.0),
                        max: s(10.0),
                    }],
                },
                AffixTier {
                    tier: 2,
                    ilvl_required: 40,
                    weight: 100,
                    stats: vec![StatRoll {
                        stat: "physical_damage".into(),
                        kind: ModifierKind::Flat,
                        min: s(15.0),
                        max: s(20.0),
                    }],
                },
            ],
        },
        Affix {
            id: "atk_speed".into(),
            name_fragment: "of Speed".into(),
            slot: AffixSlot::Suffix,
            group: "atk_speed".into(),
            tags: vec![],
            allowed_categories: vec!["weapon".into()],
            tiers: vec![AffixTier {
                tier: 4,
                ilvl_required: 1,
                weight: 100,
                stats: vec![StatRoll {
                    stat: "attack_speed".into(),
                    kind: ModifierKind::More,
                    min: s(0.05),
                    max: s(0.10),
                }],
            }],
        },
    ];
    (bases, affixes)
}

#[test]
fn basic_has_no_affixes() {
    let (bases, affixes) = fixture();
    let mut rng = SeededRng::seed_from_u64(1);
    let item = roll_item(&mut rng, &bases, &affixes, 60, Rarity::Basic).unwrap();
    assert_eq!(item.prefixes.len(), 0);
    assert_eq!(item.suffixes.len(), 0);
}

#[test]
fn same_seed_same_result() {
    let (bases, affixes) = fixture();
    let mut a = SeededRng::seed_from_u64(42);
    let mut b = SeededRng::seed_from_u64(42);
    let ia = roll_item(&mut a, &bases, &affixes, 60, Rarity::Rare).unwrap();
    let ib = roll_item(&mut b, &bases, &affixes, 60, Rarity::Rare).unwrap();
    assert_eq!(ia.base, ib.base);
    assert_eq!(ia.seed, ib.seed);
    assert_eq!(ia.prefixes.len(), ib.prefixes.len());
    assert_eq!(ia.suffixes.len(), ib.suffixes.len());
    for (x, y) in ia.prefixes.iter().zip(&ib.prefixes) {
        assert_eq!(x.affix_id, y.affix_id);
        assert_eq!(x.tier, y.tier);
        assert_eq!(x.rolls, y.rolls);
    }
}

#[test]
fn rare_respects_group_exclusion() {
    let (bases, affixes) = fixture();
    let mut rng = SeededRng::seed_from_u64(7);
    // Only one prefix-eligible and one suffix-eligible group in the fixture.
    for _ in 0..50 {
        let item = roll_item(&mut rng, &bases, &affixes, 60, Rarity::Rare).unwrap();
        assert!(item.prefixes.len() <= 1);
        assert!(item.suffixes.len() <= 1);
    }
}

#[test]
fn legendary_only_rolls_at_or_above_floor() {
    // Legendary floor = T2; fixture's prefix affix has T2 and T4 — only T2
    // should ever roll. Suffix affix has T4 only, so no suffix should roll.
    let (bases, affixes) = fixture();
    let mut rng = SeededRng::seed_from_u64(99);
    let mut saw_any = false;
    for _ in 0..100 {
        let item = roll_item(&mut rng, &bases, &affixes, 60, Rarity::Legendary).unwrap();
        for a in item.prefixes.iter().chain(item.suffixes.iter()) {
            saw_any = true;
            assert!(a.tier <= 2, "tier {} below Legendary floor 2", a.tier);
        }
        assert_eq!(item.suffixes.len(), 0, "no T2-or-better suffix exists");
    }
    assert!(saw_any, "expected at least one affix to roll");
}

#[test]
fn nothing_rolls_without_bases() {
    let (_, affixes) = fixture();
    let mut rng = SeededRng::seed_from_u64(1);
    let r = roll_item(&mut rng, &[], &affixes, 60, Rarity::Rare);
    assert!(matches!(r, Err(RollError::NoBases)));
}

#[test]
fn affixes_wait_for_their_item_level() {
    // Below item level 40 the better prefix tier does not roll.
    let (bases, affixes) = fixture();
    let mut rng = SeededRng::seed_from_u64(3);
    for _ in 0..50 {
        let item = roll_item(&mut rng, &bases, &affixes, 39, Rarity::Rare).unwrap();
        for a in item.prefixes.iter().chain(item.suffixes.iter()) {
            assert_eq!(a.tier, 4);
        }
    }
    let item = roll_item(&mut rng, &bases, &affixes, 0, Rarity::Rare).unwrap();
    assert!(item.prefixes.is_empty() && item.suffixes.is_empty());
}

#[test]
fn affixes_keep_to_their_categories() {
    let (mut bases, affixes) = fixture();
    bases[0].category = "helm".into();
    let mut rng = SeededRng::seed_from_u64(3);
    let item = roll_item(&mut rng, &bases, &affixes, 60, Rarity::Legendary).unwrap();
    assert!(item.prefixes.is_empty() && item.suffixes.is_empty());
}

#[test]
fn rolls_fall_inside_the_ranges_of_the_tier() {
    let (bases, affixes) = fixture();
    let mut rng = SeededRng::seed_from_u64(8);
    let mut seen = Vec::new();
    for _ in 0..50 {
        let item = roll_item(&mut rng, &bases, &affixes, 60, Rarity::Rare).unwrap();
        for a in &item.prefixes {
            assert_eq!(a.affix_id, "flat_phys");
            let lowest = if a.tier == 4 { 5.0 } else { 15.0 };
            assert_eq!(a.rolls.len(), 1);
            assert_eq!(a.rolls[0].min, s(lowest));
            assert_eq!(a.rolls[0].max, s(lowest + 5.0));
            assert!(a.rolls[0].draw < 1 << 24);
            seen.push(a.rolls[0].draw);
        }
    }
    seen.sort_unstable();
    seen.dedup();
    assert!(seen.len() > 10, "the draws vary");
}

#[test]
fn items_carry_a_seed_that_varies() {
    let (bases, affixes) = fixture();
    let mut rng = SeededRng::seed_from_u64(8);
    let a = roll_item(&mut rng, &bases, &affixes, 60, Rarity::Basic).unwrap();
    let b = roll_item(&mut rng, &bases, &affixes, 60, Rarity::Basic).unwrap();
    assert_ne!(a.seed, b.seed);
    assert_eq!((a.ilvl, a.rarity, a.upgrade_tier), (60, Rarity::Basic, 0));
    assert_eq!(a.base, "pistol");
    assert!(a.attached.is_empty());
}

#[test]
fn rarities_turn_up_along_the_drop_curve() {
    let mut rng = SeededRng::seed_from_u64(4);
    let mut counts = [0u32; 5];
    for _ in 0..10_000 {
        counts[roll_rarity(&mut rng).index()] += 1;
    }
    // Per thousand: 600, 280, 90, 25 and 5.
    for (n, share) in counts.iter().zip([6000u32, 2800, 900, 250, 50]) {
        assert!(n.abs_diff(share) < share / 2, "{counts:?}");
    }
}

#[test]
fn weights_that_add_up_too_far_rule_out_what_they_are_picked_for() {
    let (bases, mut affixes) = fixture();
    assert!(drops_fit(&bases, &affixes, 60));
    // The tiers of the prefix: T4 from level 1 and T2 from level 40.
    for tier in &mut affixes[0].tiers {
        tier.weight = u32::MAX;
    }
    assert!(!drops_fit(&bases, &affixes, 60));
    assert!(!rolls_fit(&bases, &affixes, 60, Rarity::Rare));
    // Below level 40, and above the fourth tier, only one of them is on offer.
    assert!(drops_fit(&bases, &affixes, 39));
    assert!(rolls_fit(&bases, &affixes, 60, Rarity::Legendary));
    // A basic item gets none of them, and one of another category neither.
    assert!(rolls_fit(&bases, &affixes, 60, Rarity::Basic));
    affixes[0].allowed_categories = vec!["helm".into()];
    assert!(drops_fit(&bases, &affixes, 60));
    // Prefixes and suffixes are picked apart from each other.
    affixes[0].allowed_categories = vec!["weapon".into()];
    affixes[0].tiers.truncate(1);
    affixes[1].tiers[0].weight = u32::MAX;
    assert!(drops_fit(&bases, &affixes, 60));
    let mut rng = SeededRng::seed_from_u64(3);
    let item = roll_item(&mut rng, &bases, &affixes, 60, Rarity::Rare).unwrap();
    assert!(item.prefixes.len() <= 1 && item.suffixes.len() <= 1);
}

/// Six prefixes and six suffixes, each of a group of its own and of the best tier.
fn rich_table() -> Vec<Affix> {
    (0..12)
        .map(|i| Affix {
            id: format!("affix_{i}"),
            name_fragment: String::new(),
            slot: if i < 6 { AffixSlot::Prefix } else { AffixSlot::Suffix },
            group: format!("group_{i}"),
            tags: vec![],
            allowed_categories: vec!["weapon".into()],
            tiers: vec![AffixTier { tier: 1, ilvl_required: 1, weight: 10, stats: vec![] }],
        })
        .collect()
}

#[test]
fn rarer_items_have_more_affixes() {
    let (bases, _) = fixture();
    let affixes = rich_table();
    let mut rng = SeededRng::seed_from_u64(12);
    let bounds = [
        (Rarity::Basic, 0..=0, 0),
        (Rarity::Common, 1..=2, 1),
        (Rarity::Rare, 3..=4, 3),
        (Rarity::Epic, 4..=5, 3),
        (Rarity::Legendary, 5..=6, 3),
    ];
    for (rarity, count, of_a_kind) in bounds {
        let mut seen = Vec::new();
        for _ in 0..60 {
            let item = roll_item(&mut rng, &bases, &affixes, 60, rarity).unwrap();
            let n = item.prefixes.len() + item.suffixes.len();
            assert!(count.contains(&n), "{rarity:?}: {n}");
            assert!(item.prefixes.len() <= of_a_kind && item.suffixes.len() <= of_a_kind);
            let mut ids: Vec<&str> =
                item.prefixes.iter().chain(&item.suffixes).map(|a| a.affix_id.as_str()).collect();
            ids.sort_unstable();
            ids.dedup();
            assert_eq!(ids.len(), n, "no group comes twice");
            seen.push(n);
        }
        assert!(seen.contains(count.start()) && seen.contains(count.end()), "{rarity:?}");
    }
}
