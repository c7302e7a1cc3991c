//! The stats of an item: intrinsics, affixes, attachments and upgrades together.

use bigbox::rules::affix::{Affix, AffixSlot, AffixTier, StatRoll};
use bigbox::rules::aggregate::aggregate_item;
use bigbox::rules::combat::StatValue;
use bigbox::rules::item::{
    Attachment, AttachmentModifier, BaseItem, IntrinsicStat, ItemInstance, Rarity, Roll, RolledAffix,
};
use bigbox::rules::stats::{ModifierKind, Terms};
use bigbox::scalar::Scalar;

fn f(x: Scalar) -> f32 {
    f32::from_bits(x.bits)
}

fn s(x: f32) -> Scalar {
    Scalar { bits: x.to_bits() }
}

fn roll_value(r: &Roll) -> f32 {
    f(r.min) + r.draw as f32 / 16_777_216.0 * (f(r.max) - f(r.min))
}

fn evaluate(terms: &Terms) -> f32 {
    let base: f32 = terms.base.iter().map(|v| f(*v)).sum();
    let flat: f32 = terms.flat.iter().map(roll_value).sum();
    let increased: f32 = terms.increased.iter().map(roll_value).sum();
    let more: f32 = terms.more.iter().map(|r| 1.0 + roll_value(r)).product();
    (base + flat) * (1.0 + increased) * more
}

fn stats_with(
    item: &ItemInstance,
    base: &BaseItem,
    affixes: &[Affix],
    attachments: &[Attachment],
) -> Vec<StatValue> {
    let sheet = aggregate_item(item, base, affixes, attachments);
    let scale = 1.0 + 0.08 * ((sheet.scale_percent - 100) / 8) as f32;
    sheet
        .stats
        .iter()
        .map(|e| StatValue { stat: e.stat.clone(), value: s(evaluate(&e.terms) * scale) })
        .collect()
}

fn stats_of(item: &ItemInstance, base: &BaseItem, affixes: &[Affix]) -> Vec<StatValue> {
    stats_with(item, base, affixes, &[])
}

fn get(stats: &[StatValue], stat: &str) -> Option<f32> {
    stats.iter().find(|e| e.stat == stat).map(|e| f(e.value))
}

fn pistol() -> BaseItem {
    BaseItem {
        id: "pistol".into(),
        name: "Pistol".into(),
        category: "weapon".into(),
        slot: "weapon".into(),
        intrinsic_stats: vec![
            IntrinsicStat {
                stat: "weapon_damage".into(),
                value: s(12.0),
            },
            IntrinsicStat {
                stat: "fire_rate".into(),
                value: s(4.0),
            },
        ],
        attachment_slots: vec![],
    }
}

fn empty_instance(base_id: &str) -> ItemInstance {
    ItemInstance {
        base: base_id.into(),
        ilvl: 60,
        rarity: Rarity::Basic,
        seed: 0,
        prefixes: vec![],
        suffixes: vec![],
        upgrade_tier: 0,
        attached: vec![],
    }
}

fn affix_one_tier(
    id: &str,
    slot: AffixSlot,
    stat: &str,
    kind: ModifierKind,
    min: f32,
    max: f32,
) -> Affix {
    Affix {
        id: id.into(),
        name_fragment: id.into(),
        slot,
        group: id.into(),
        tags: vec![],
        allowed_categories: vec!["weapon".into()],
        tiers: vec![AffixTier {
            tier: 1,
            ilvl_required: 1,
            weight: 100,
            stats: vec![StatRoll {
                stat: stat.into(),
                kind,
                min: s(min),
                max: s(max),
            }],
        }],
    }
}

fn approx(a: f32, b: f32) -> bool {
    (a - b).abs() < 1e-4
}

#[test]
fn no_affixes_returns_intrinsics() {
    let base = pistol();
    let item = empty_instance("pistol");
    let result = stats_of(&item, &base, &[]);
    assert_eq!(get(&result, "weapon_damage"), Some(12.0));
    assert_eq!(get(&result, "fire_rate"), Some(4.0));
}

#[test]
fn flat_affix_on_zero_base() {
    let base = pistol();
    let mut item = empty_instance("pistol");
    item.prefixes.push(RolledAffix {
        affix_id: "flat_bullet".into(),
        tier: 1,
        rolls: vec![Roll::fixed(s(10.0))],
    });
    let affixes = vec![affix_one_tier(
        "flat_bullet",
        AffixSlot::Prefix,
        "bullet_damage",
        ModifierKind::Flat,
        10.0,
        10.0,
    )];
    let result = stats_of(&item, &base, &affixes);
    assert_eq!(get(&result, "bullet_damage"), Some(10.0));
}

#[test]
fn increased_affix_scales_intrinsic_base() {
    let base = pistol();
    let mut item = empty_instance("pistol");
    item.prefixes.push(RolledAffix {
        affix_id: "inc_weapon".into(),
        tier: 1,
        rolls: vec![Roll::fixed(s(0.50))],
    });
    let affixes = vec![affix_one_tier(
        "inc_weapon",
        AffixSlot::Prefix,
        "weapon_damage",
        ModifierKind::Increased,
        0.50,
        0.50,
    )];
    let result = stats_of(&item, &base, &affixes);
    // (12 + 0) × (1 + 0.50) × 1 = 18
    let got = get(&result, "weapon_damage").unwrap();
    assert!(approx(got, 18.0), "got {got}");
}

#[test]
fn three_tier_formula_per_stat() {
    let base = BaseItem {
        id: "x".into(),
        name: "X".into(),
        category: "weapon".into(),
        slot: "weapon".into(),
        intrinsic_stats: vec![IntrinsicStat {
            stat: "x".into(),
            value: s(100.0),
        }],
attachment_slots: vec![],
    };
    let item = ItemInstance {
        base: "x".into(),
        ilvl: 60,
        rarity: Rarity::Rare,
        seed: 0,
        prefixes: vec![
            RolledAffix {
                affix_id: "flat".into(),
                tier: 1,
                rolls: vec![Roll::fixed(s(20.0))],
            },
            RolledAffix {
                affix_id: "inc".into(),
                tier: 1,
                rolls: vec![Roll::fixed(s(0.25))],
            },
        ],
        suffixes: vec![RolledAffix {
            affix_id: "more".into(),
            tier: 1,
            rolls: vec![Roll::fixed(s(0.20))],
        }],
        upgrade_tier: 0,
        attached: vec![],
    };
    let affixes = vec![
        affix_one_tier("flat", AffixSlot::Prefix, "x", ModifierKind::Flat, 20.0, 20.0),
        affix_one_tier("inc", AffixSlot::Prefix, "x", ModifierKind::Increased, 0.25, 0.25),
        affix_one_tier("more", AffixSlot::Suffix, "x", ModifierKind::More, 0.20, 0.20),
    ];
    let result = stats_of(&item, &base, &affixes);
    // (100 + 20) × (1 + 0.25) × (1 + 0.20) = 180
    let got = get(&result, "x").unwrap();
    assert!(approx(got, 180.0), "got {got}");
}

#[test]
fn upgrade_tier_scales_all_aggregated_stats() {
    let base = pistol();
    let mut item = empty_instance("pistol");
    item.prefixes.push(RolledAffix {
        affix_id: "flat_bullet".into(),
        tier: 1,
        rolls: vec![Roll::fixed(s(10.0))],
    });
    let affixes = vec![affix_one_tier(
        "flat_bullet",
        AffixSlot::Prefix,
        "bullet_damage",
        ModifierKind::Flat,
        10.0,
        10.0,
    )];

    let base_result = stats_of(&item, &base, &affixes);
    let base_dmg = get(&base_result, "weapon_damage").unwrap();
    let base_bullet = get(&base_result, "bullet_damage").unwrap();

    // Tier 5 = +40% scaling.
    item.upgrade_tier = 5;
    let upgraded = stats_of(&item, &base, &affixes);
    let up_dmg = get(&upgraded, "weapon_damage").unwrap();
    let up_bullet = get(&upgraded, "bullet_damage").unwrap();

    assert!(approx(up_dmg / base_dmg, 1.40), "weapon_damage ratio");
    assert!(approx(up_bullet / base_bullet, 1.40), "bullet_damage ratio");
}

#[test]
fn affixes_on_different_stats_are_independent() {
    let base = pistol();
    let mut item = empty_instance("pistol");
    item.suffixes.push(RolledAffix {
        affix_id: "rate".into(),
        tier: 1,
        rolls: vec![Roll::fixed(s(0.10))],
    });
    let affixes = vec![affix_one_tier(
        "rate",
        AffixSlot::Suffix,
        "fire_rate",
        ModifierKind::More,
        0.10,
        0.10,
    )];
    let result = stats_of(&item, &base, &affixes);
    // weapon_damage unchanged; fire_rate 4 × 1.10 = 4.4
    assert_eq!(get(&result, "weapon_damage"), Some(12.0));
    let rate = get(&result, "fire_rate").unwrap();
    assert!(approx(rate, 4.4), "got {rate}");
}

#[test]
fn attachments_modify_the_stats_they_name() {
    let base = pistol();
    let mut item = empty_instance("pistol");
    item.attached.push("long_barrel".into());
    item.attached.push("lost".into());
    let attachments = [Attachment {
        id: "long_barrel".into(),
        name: "Long Barrel".into(),
        rarity: Rarity::Common,
        slot_type: "barrel".into(),
        allowed_categories: vec!["weapon".into()],
        modifiers: vec![
            AttachmentModifier {
                stat: "weapon_damage".into(),
                kind: ModifierKind::More,
                value: s(0.5),
            },
            AttachmentModifier {
                stat: "crit_chance".into(),
                kind: ModifierKind::Flat,
                value: s(0.25),
            },
        ],
    }];
    let stats = stats_with(&item, &base, &[], &attachments);
    assert_eq!(get(&stats, "weapon_damage"), Some(18.0));
    assert_eq!(get(&stats, "crit_chance"), Some(0.25));
    assert_eq!(get(&stats, "fire_rate"), Some(4.0));
    // An attachment that nothing describes modifies nothing.
    assert_eq!(stats.len(), 3);
}

#[test]
fn affixes_that_nothing_describes_are_passed_over() {
    let base = pistol();
    let mut item = empty_instance("pistol");
    item.prefixes.push(RolledAffix {
        affix_id: "lost".into(),
        tier: 1,
        rolls: vec![Roll::fixed(s(10.0))],
    });
    let affixes = [affix_one_tier(
        "known",
        AffixSlot::Prefix,
        "weapon_damage",
        ModifierKind::Flat,
        10.0,
        10.0,
    )];
    let stats = stats_of(&item, &base, &affixes);
    assert_eq!(get(&stats, "weapon_damage"), Some(12.0));
    // Nor does a tier that the affix does not have.
    item.prefixes[0].affix_id = "known".into();
    item.prefixes[0].tier = 3;
    let stats = stats_of(&item, &base, &affixes);
    assert_eq!(get(&stats, "weapon_damage"), Some(12.0));
}
