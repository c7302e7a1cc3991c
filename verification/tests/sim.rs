//! The drop simulator: drops, tallies, tables and rows.

use bigbox::rules::affix::{Affix, AffixSlot, AffixTier, StatRoll};
use bigbox::rules::enemy::Enemy;
use bigbox::rules::item::{
    Attachment, AttachmentModifier, BaseItem, ItemInstance, Rarity, Roll, RolledAffix,
};
use bigbox::rules::roll::RollError;
use bigbox::rules::stats::ModifierKind;
use bigbox::scalar::Scalar;
use bigbox::sim::csv::{heading, write_affix, write_row};
use bigbox::sim::drops::roll_drops;
use bigbox::sim::loadout::{baseline, bench_item, best_combo, loadout_combos, optimal_loadout};
use bigbox::sim::measure::{kit_sheets, measure, naked_metrics, Estimate};
use bigbox::sim::report::{AffixCells, BaseCells, Cells, RarityCells};
use bigbox::sim::summary::{lookup_range, Summary};

fn f(x: Scalar) -> f32 {
    f32::from_bits(x.bits)
}

fn s(x: f32) -> Scalar {
    Scalar { bits: x.to_bits() }
}

fn base(id: &str, slots: &[&str]) -> BaseItem {
    BaseItem {
        id: id.into(),
        name: id.into(),
        category: "weapon".into(),
        slot: "weapon".into(),
        intrinsic_stats: vec![],
        attachment_slots: slots.iter().map(|s| s.to_string()).collect(),
    }
}

fn affix(id: &str, slot: AffixSlot, min: f32, max: f32) -> Affix {
    Affix {
        id: id.into(),
        name_fragment: id.into(),
        slot,
        group: id.into(),
        tags: vec![],
        allowed_categories: vec!["weapon".into()],
        tiers: vec![AffixTier {
            tier: 3,
            ilvl_required: 1,
            weight: 10,
            stats: vec![StatRoll {
                stat: "damage".into(),
                kind: ModifierKind::Flat,
                min: s(min),
                max: s(max),
            }],
        }],
    }
}

fn rolled(id: &str, tier: u8, value: f32) -> RolledAffix {
    RolledAffix { affix_id: id.into(), tier, rolls: vec![Roll::fixed(s(value))] }
}

fn item(base: &str, rarity: Rarity) -> ItemInstance {
    ItemInstance {
        base: base.into(),
        ilvl: 40,
        rarity,
        seed: 0,
        prefixes: vec![],
        suffixes: vec![],
        upgrade_tier: 0,
        attached: vec![],
    }
}

#[test]
fn drops_repeat_with_their_seed() {
    let bases = [base("pistol", &[]), base("rifle", &[])];
    let affixes = [
        affix("sharp", AffixSlot::Prefix, 1.0, 2.0),
        affix("swift", AffixSlot::Suffix, 1.0, 2.0),
    ];
    let a = roll_drops(42, 30, &bases, &affixes, 60).unwrap();
    let b = roll_drops(42, 30, &bases, &affixes, 60).unwrap();
    let c = roll_drops(43, 30, &bases, &affixes, 60).unwrap();
    assert_eq!(a.len(), 30);
    let seeds = |items: &[ItemInstance]| items.iter().map(|i| i.seed).collect::<Vec<u64>>();
    assert_eq!(seeds(&a), seeds(&b));
    assert_ne!(seeds(&a), seeds(&c));
    // A shorter run is the start of a longer one.
    let d = roll_drops(42, 10, &bases, &affixes, 60).unwrap();
    assert_eq!(seeds(&a)[..10], seeds(&d)[..]);
    assert!(a.iter().any(|i| i.base == "pistol") && a.iter().any(|i| i.base == "rifle"));
}

#[test]
fn no_kills_need_no_bases() {
    assert_eq!(roll_drops(1, 0, &[], &[], 60).unwrap().len(), 0);
    assert!(matches!(roll_drops(1, 1, &[], &[], 60), Err(RollError::NoBases)));
}

#[test]
fn rows_list_the_drop_and_its_affixes() {
    assert_eq!(heading(), "kill,rarity,base,ilvl,n_affixes,dps_estimate,ttk_estimate,affixes");
    let mut drop = item("pistol", Rarity::Epic);
    assert_eq!(
        write_row(7, &drop, &"12.50".to_string(), &"0.125".to_string(), &vec![]),
        "7,Epic,pistol,40,0,12.50,0.125,"
    );
    drop.prefixes.push(rolled("sharp", 2, 1.5));
    drop.suffixes.push(RolledAffix { affix_id: "swift".into(), tier: 1, rolls: vec![] });
    let rolls = vec![vec!["1.50".to_string(), "3.00".to_string()], vec![]];
    assert_eq!(
        write_row(8, &drop, &"1.00".to_string(), &"-1.000".to_string(), &rolls),
        "8,Epic,pistol,40,2,1.00,-1.000,T2_sharp:1.50/3.00|T1_swift"
    );
    assert_eq!(write_affix(&drop.suffixes[0], &vec![]), "T1_swift");
}

/// Three drops: two weapons, one of them with affixes, and a helm.
fn tallied() -> Summary {
    let mut sum = Summary::new();
    let mut pistol = item("pistol", Rarity::Rare);
    pistol.prefixes.push(rolled("sharp", 2, 1.5));
    pistol.suffixes.push(rolled("swift", 1, 0.25));
    sum.record(&pistol, s(10.0), s(2.0), &vec![vec![s(1.5)], vec![s(0.25)]]);
    sum.record(&item("helm", Rarity::Basic), s(0.0), s(-1.0), &vec![]);
    sum.record(&item("pistol", Rarity::Basic), s(20.0), s(1.0), &vec![]);
    sum
}

#[test]
fn tallies_count_by_rarity_base_and_affix_tier() {
    let sum = tallied();
    assert_eq!(sum.drops, 3);
    let counts: Vec<(u32, u64)> = sum.rarities.iter().map(|r| (r.count, r.sum_affixes)).collect();
    assert_eq!(counts, vec![(2, 0), (0, 0), (1, 2), (0, 0), (0, 0)]);
    // Bases stand in the order of their names, and only weapons have a time to kill.
    assert_eq!(sum.by_base.len(), 2);
    assert_eq!(sum.by_base[0].base, "helm");
    assert_eq!(sum.by_base[0].dps, vec![s(0.0)]);
    assert!(sum.by_base[0].ttk.is_empty());
    assert_eq!(sum.by_base[1].base, "pistol");
    assert_eq!(sum.by_base[1].dps, vec![s(10.0), s(20.0)]);
    assert_eq!(sum.by_base[1].ttk, vec![s(2.0), s(1.0)]);
    assert_eq!(sum.by_base[1].ttk_by_rarity[Rarity::Rare.index()], vec![s(2.0)]);
    assert_eq!(sum.by_base[1].ttk_by_rarity[Rarity::Basic.index()], vec![s(1.0)]);
    assert_eq!(sum.by_affix_tier.len(), 2);
    let first = &sum.by_affix_tier[0];
    assert_eq!((first.affix_id.as_str(), first.tier, first.count), ("sharp", 2, 1));
    assert_eq!(first.rolls[0].values, vec![s(1.5)]);
    assert_eq!((first.rolls[0].min, first.rolls[0].max), (s(1.5), s(1.5)));
}

#[test]
fn rolls_keep_their_extremes() {
    let mut sum = Summary::new();
    for value in [3.0, 1.0, 2.0] {
        let mut drop = item("pistol", Rarity::Common);
        drop.prefixes.push(rolled("sharp", 2, value));
        sum.record(&drop, s(1.0), s(1.0), &vec![vec![s(value)]]);
    }
    assert_eq!(sum.by_affix_tier.len(), 1);
    let rolls = &sum.by_affix_tier[0].rolls[0];
    assert_eq!(rolls.values, vec![s(3.0), s(1.0), s(2.0)]);
    assert_eq!((f(rolls.min), f(rolls.max)), (1.0, 3.0));
}

#[test]
fn tables_are_laid_out_in_columns() {
    let sum = tallied();
    let rarity = |pct: &str, avg: &str| RarityCells { pct: pct.into(), avg_affixes: avg.into() };
    let cells = Cells {
        rarities: vec![
            rarity("66.67", "0.00"),
            rarity("0.00", "0.00"),
            rarity("33.33", "2.00"),
            rarity("0.00", "0.00"),
            rarity("0.00", "0.00"),
        ],
        bases: vec![
            BaseCells {
                pct: "33.33".into(),
                avg_dps: "0.00".into(),
                avg_ttk: String::new(),
                ttk_by_rarity: vec![String::new(); 5],
            },
            BaseCells {
                pct: "66.67".into(),
                avg_dps: "15.00".into(),
                avg_ttk: "1.500".into(),
                ttk_by_rarity: vec![
                    "1.000".into(),
                    String::new(),
                    "2.000".into(),
                    String::new(),
                    String::new(),
                ],
            },
        ],
        affixes: vec![
            AffixCells {
                avg_roll: "1.500".into(),
                min: "1.00".into(),
                max: "2.00".into(),
                fill: "50.0".into(),
            },
            AffixCells {
                avg_roll: "0.250".into(),
                min: "0.00".into(),
                max: "0.00".into(),
                fill: "0.0".into(),
            },
        ],
    };
    let lines = sum.print(42, 60, &cells);
    let expected = vec![
        "=== head2box-sim summary ===".to_string(),
        "seed: 42  ilvl: 60  drops: 3".to_string(),
        String::new(),
        format!("{:<10} {:>8} {:>8} {:>14}", "Rarity", "count", "pct", "avg_affixes"),
        format!("{:<10} {:>8} {:>7.2}% {:>14.2}", "Basic", 2, 66.67, 0.0),
        format!("{:<10} {:>8} {:>7.2}% {:>14.2}", "Common", 0, 0.0, 0.0),
        format!("{:<10} {:>8} {:>7.2}% {:>14.2}", "Rare", 1, 33.33, 2.0),
        format!("{:<10} {:>8} {:>7.2}% {:>14.2}", "Epic", 0, 0.0, 0.0),
        format!("{:<10} {:>8} {:>7.2}% {:>14.2}", "Legendary", 0, 0.0, 0.0),
        String::new(),
        format!("{:<20} {:>8} {:>8} {:>10} {:>10}", "Base", "count", "pct", "avg_dps", "avg_ttk"),
        format!("{:<20} {:>8} {:>7.2}% {:>10.2} {:>10}", "helm", 1, 33.33, 0.0, "—"),
        format!("{:<20} {:>8} {:>7.2}% {:>10.2} {:>10.3}", "pistol", 2, 66.67, 15.0, 1.5),
        String::new(),
        format!(
            "{:<20} {:>10} {:>10} {:>10} {:>10} {:>10}",
            "TTK by rarity", "Basic", "Common", "Rare", "Epic", "Legendary"
        ),
        format!(
            "{:<20} {:>9.3}s {:>10} {:>9.3}s {:>10} {:>10}",
            "pistol", 1.0, "—", 2.0, "—", "—"
        ),
        String::new(),
        format!(
            "{:<24} {:>4} {:>8} {:>10} {:>19} {:>10}",
            "Affix", "tier", "count", "avg_roll", "theoretical_range", "fill_pct"
        ),
        format!(
            "{:<24} T{:<3} {:>8} {:>10.3} [{:>7.2}, {:>7.2}] {:>9.1}%",
            "sharp", 2, 1, 1.5, 1.0, 2.0, 50.0
        ),
        format!(
            "{:<24} T{:<3} {:>8} {:>10.3} [{:>7.2}, {:>7.2}] {:>9.1}%",
            "swift", 1, 1, 0.25, 0.0, 0.0, 0.0
        ),
    ];
    assert_eq!(lines, expected);
}

#[test]
fn ranges_come_from_the_table() {
    let affixes = [
        affix("sharp", AffixSlot::Prefix, 1.0, 2.0),
        affix("swift", AffixSlot::Suffix, 3.0, 4.0),
        affix("sharp", AffixSlot::Prefix, 5.0, 6.0),
    ];
    assert_eq!(lookup_range(&affixes, &"swift".to_string(), 3), (s(3.0), s(4.0)));
    // Of two affixes with one id the last counts.
    assert_eq!(lookup_range(&affixes, &"sharp".to_string(), 3), (s(5.0), s(6.0)));
    assert_eq!(lookup_range(&affixes, &"sharp".to_string(), 1), (s(0.0), s(0.0)));
    assert_eq!(lookup_range(&affixes, &"lost".to_string(), 3), (s(0.0), s(0.0)));
}

fn attachment(id: &str, slot: &str, category: &str) -> Attachment {
    Attachment {
        id: id.into(),
        name: id.into(),
        rarity: Rarity::Common,
        slot_type: slot.into(),
        allowed_categories: vec![category.into()],
        modifiers: vec![],
    }
}

#[test]
fn every_combination_of_attachments_is_tried() {
    let rifle = base("rifle", &["optic", "stock", "barrel"]);
    let attachments = [
        attachment("dot", "optic", "weapon"),
        attachment("scope", "optic", "weapon"),
        attachment("long", "barrel", "weapon"),
        attachment("short", "barrel", "weapon"),
        attachment("helm_light", "optic", "helm"),
        attachment("drum", "magazine", "weapon"),
    ];
    let combos = loadout_combos(&rifle, &attachments);
    // Every slot that something fits takes one of what fits; nothing fits the stock.
    let texts: Vec<String> = combos.iter().map(|c| c.join("+")).collect();
    assert_eq!(texts, vec!["dot+long", "dot+short", "scope+long", "scope+short"]);
    let bench = bench_item(&rifle, &combos[0]);
    assert_eq!(bench.base, "rifle");
    assert_eq!(bench.attached, combos[0]);
    assert!(bench.prefixes.is_empty() && bench.suffixes.is_empty());
    assert!(loadout_combos(&base("helm", &[]), &attachments).is_empty());
}

#[test]
fn the_best_combination_wins() {
    assert_eq!(best_combo(&vec![s(1.0), s(3.0), s(3.0), s(2.0)]), Some(1));
    assert_eq!(best_combo(&vec![]), None);
    let combos = vec![vec!["a".to_string()], vec!["b".to_string()]];
    assert_eq!(optimal_loadout(&combos, &vec![s(1.0), s(2.0)]), vec!["b".to_string()]);
}

#[test]
fn weapons_are_measured_on_a_plain_zombie() {
    let zombie = |id: &str, life: f32| Enemy {
        id: id.into(),
        name: id.into(),
        category: "zombie".into(),
        ilvl: 1,
        max_life: s(life),
        armor: s(4.0),
        evasion: s(0.0),
        xp_value: 1,
    };
    let c = baseline(&[zombie("fast_zombie", 50.0), zombie("basic_zombie", 80.0)]);
    assert_eq!((f(c.max_life), f(c.armor)), (80.0, 4.0));
    let c = baseline(&[]);
    assert_eq!((f(c.max_life), f(c.armor), f(c.evasion)), (100.0, 0.0, 0.0));
}

#[test]
fn weapons_that_do_nothing_have_no_time_to_kill() {
    assert_eq!(naked_metrics(s(0.0), Some(s(3.0))), Estimate { dps: s(0.0), ttk: s(0.0) });
    assert_eq!(naked_metrics(s(2.0), Some(s(3.0))), Estimate { dps: s(2.0), ttk: s(3.0) });
    assert_eq!(naked_metrics(s(2.0), None), Estimate { dps: s(2.0), ttk: s(0.0) });
    let m = measure(
        Estimate { dps: s(1.0), ttk: s(2.0) },
        Estimate { dps: s(3.0), ttk: s(4.0) },
        &vec![Some(s(5.0)), None],
    );
    assert_eq!((m.dps, m.ttk, m.kit_dps, m.kit_ttk), (s(1.0), s(2.0), s(3.0), s(4.0)));
    assert_eq!(m.ttk_per_enemy, vec![s(5.0), s(0.0)]);
}

#[test]
fn a_kit_adds_its_modifiers_and_leaves_the_drop_alone() {
    let mut scope = attachment("scope", "optic", "weapon");
    scope.modifiers.push(AttachmentModifier {
        stat: "crit_chance".into(),
        kind: ModifierKind::Flat,
        value: s(0.25),
    });
    let rifle = base("rifle", &["optic"]);
    let mut drop = item("rifle", Rarity::Rare);
    drop.attached.push("dot".into());
    let (naked, kitted) =
        kit_sheets(&mut drop, &rifle, &[], &[scope], vec!["scope".to_string()]);
    assert!(naked.stats.is_empty());
    assert_eq!(kitted.stats.len(), 1);
    assert_eq!(kitted.stats[0].stat, "crit_chance");
    assert_eq!(kitted.stats[0].terms.flat, vec![Roll::fixed(s(0.25))]);
    assert_eq!(drop.attached, vec!["dot".to_string()]);
}
