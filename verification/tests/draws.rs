//! What is drawn is what the generator of `rand` hands out, request by request.

use bigbox::game::director::pick_weighted_archetype;
use bigbox::procgen::flow::FlowField;
use bigbox::procgen::spawn::pick_spawn_points;
use bigbox::procgen::tilemap::{Tile, TileMap};
use bigbox::rng::SeededRng;
use bigbox::rules::affix::{Affix, AffixSlot, AffixTier, StatRoll};
use bigbox::rules::combat::{resolve_hit, Aimed, Blow, Combatant, HitResult, Weapon};
use bigbox::rules::item::{BaseItem, Rarity};
use bigbox::rules::rarity::roll_rarity;
use bigbox::rules::roll::roll_item;
use bigbox::rules::stats::ModifierKind;
use bigbox::scalar::Scalar;
use rand::rngs::StdRng;
use rand::{Rng, SeedableRng};

fn s(x: f32) -> Scalar {
    Scalar { bits: x.to_bits() }
}

#[test]
fn rarities_come_from_one_draw_in_a_thousand() {
    for seed in 0..200 {
        let mut ours = SeededRng::seed_from_u64(seed);
        let mut theirs = StdRng::seed_from_u64(seed);
        for _ in 0..20 {
            let r = theirs.gen_range(0..1000);
            let expected = if r < 5 {
                Rarity::Legendary
            } else if r < 30 {
                Rarity::Epic
            } else if r < 120 {
                Rarity::Rare
            } else if r < 400 {
                Rarity::Common
            } else {
                Rarity::Basic
            };
            assert_eq!(roll_rarity(&mut ours), expected);
        }
    }
}

#[test]
fn uniform_picks_come_from_one_draw() {
    for seed in 0..50 {
        let mut ours = SeededRng::seed_from_u64(seed);
        let mut theirs = StdRng::seed_from_u64(seed);
        for n in 1..40usize {
            let picked = pick_weighted_archetype(&mut ours, &[0; 12], n);
            assert_eq!(picked, theirs.gen_range(0..n));
        }
    }
}

fn bases() -> Vec<BaseItem> {
    ["pistol", "rifle", "cannon"]
        .iter()
        .map(|id| BaseItem {
            id: id.to_string(),
            name: id.to_string(),
            category: "weapon".into(),
            slot: "weapon".into(),
            intrinsic_stats: vec![],
            attachment_slots: vec![],
        })
        .collect()
}

/// One prefix and one suffix with one tier each and one stat each.
fn affixes() -> Vec<Affix> {
    [("sharp", AffixSlot::Prefix), ("swift", AffixSlot::Suffix)]
        .into_iter()
        .map(|(id, slot)| Affix {
            id: id.into(),
            name_fragment: id.into(),
            slot,
            group: id.into(),
            tags: vec![],
            allowed_categories: vec!["weapon".into()],
            tiers: vec![AffixTier {
                tier: 1,
                ilvl_required: 1,
                weight: 7,
                stats: vec![StatRoll {
                    stat: "damage".into(),
                    kind: ModifierKind::Flat,
                    min: s(1.0),
                    max: s(2.0),
                }],
            }],
        })
        .collect()
}

/// What the generator decides of one affix: which, which tier, and where it rolls.
fn affix_draws(rng: &mut StdRng) -> f32 {
    assert!(rng.gen_range(0..7u32) < 7);
    assert!(rng.gen_range(0..7u32) < 7);
    rng.gen::<f32>()
}

#[test]
fn items_draw_base_seed_count_and_rolls_in_that_order() {
    let (bases, affixes) = (bases(), affixes());
    for seed in 0..200 {
        let mut ours = SeededRng::seed_from_u64(seed);
        let mut theirs = StdRng::seed_from_u64(seed);
        for _ in 0..5 {
            let item = roll_item(&mut ours, &bases, &affixes, 10, Rarity::Common).unwrap();
            assert_eq!(item.base, bases[theirs.gen_range(0..bases.len())].id);
            assert_eq!(item.seed, theirs.gen::<u64>());
            let (prefixes, suffixes) = if theirs.gen_bool(0.5) {
                (1, 1)
            } else if theirs.gen_bool(0.5) {
                (1, 0)
            } else {
                (0, 1)
            };
            assert_eq!((item.prefixes.len(), item.suffixes.len()), (prefixes, suffixes));
            for a in item.prefixes.iter().chain(&item.suffixes) {
                assert_eq!(a.rolls[0].draw as f32 / 16_777_216.0, affix_draws(&mut theirs));
            }
        }
    }
}

#[test]
fn shots_draw_for_the_dodge_and_then_for_the_crit() {
    let weapon = Weapon {
        damage_per_shot: s(1.0),
        fire_rate: s(1.0),
        crit_chance: s(0.3),
        crit_multiplier: s(2.0),
    };
    let aimed = Aimed {
        ratio: s(0.45),
        crit_damage: s(2.0),
        plain: Blow { ratio: s(0.0), mitigated: s(1.0), left: s(9.0) },
        crit: Blow { ratio: s(0.0), mitigated: s(2.0), left: s(8.0) },
    };
    let mut ours = SeededRng::seed_from_u64(3);
    let mut theirs = StdRng::seed_from_u64(3);
    for _ in 0..2000 {
        let mut target = Combatant { evasion: s(80.0), ..Combatant::dummy(s(10.0)) };
        let result = resolve_hit(&mut ours, &weapon, &mut target, &aimed);
        let expected = if theirs.gen::<f32>() < 0.45 {
            (HitResult::Dodged, s(10.0))
        } else if theirs.gen::<f32>() < 0.3 {
            (HitResult::Hit { damage_dealt: s(2.0), was_crit: true }, s(8.0))
        } else {
            (HitResult::Hit { damage_dealt: s(1.0), was_crit: false }, s(9.0))
        };
        assert_eq!((result, target.current_life), expected);
    }
}

#[test]
fn spawn_points_are_drawn_by_distance() {
    let map = TileMap {
        width: 9,
        height: 1,
        tiles: vec![Tile::Floor; 9],
        rooms: vec![],
        seed: 0,
        player_spawn: (0, 0),
    };
    let field = FlowField::compute(&map, (0, 0));
    for seed in 0..100 {
        let mut ours = SeededRng::seed_from_u64(seed);
        let mut theirs = StdRng::seed_from_u64(seed);
        // The cells from the third on, each with its distance for a weight.
        let mut left: Vec<u64> = (3..9).collect();
        let mut expected = Vec::new();
        for _ in 0..4 {
            let mut pick = theirs.gen_range(0..left.iter().sum::<u64>());
            let mut chosen = 0;
            while pick >= left[chosen] {
                pick -= left[chosen];
                chosen += 1;
            }
            expected.push((left.swap_remove(chosen) as u32, 0));
        }
        assert_eq!(pick_spawn_points(&mut ours, &field, 4, 3), expected);
    }
}
