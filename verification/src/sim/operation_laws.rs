//! What the operations of the simulator do, said of what goes into a call and what comes out
//! of it.

use vstd::prelude::*;

use crate::rng::RngState;
use crate::rules::affix::Affix;
use crate::rules::combat::Combatant;
use crate::rules::enemy::Enemy;
use crate::rules::item::{Attachment, BaseItem, ItemInstance, Rarity, RolledAffix};
use crate::rules::roll::{can_drop, RollError};
use crate::scalar::Scalar;
use crate::sim::csv::{law_rows_of_values, write_row};
use crate::sim::drops::{are_drops, falls, law_every_drop_is_rolled, roll_drops};
use crate::sim::loadout::{
    baseline, bench_item, best_combo, combo_texts, law_baselines, law_best_is_best,
    law_combos_fill_every_usable_slot, loadout_combos, one_for_each, optimal_loadout,
    usable_slots,
};
use crate::sim::measure::{measure, naked_metrics, DropMetrics, Estimate};
use crate::sim::report::{
    affix_row, base_row, law_report_layout, rarity_row, run_line, Cells,
};
use crate::sim::summary::{
    base_map, law_drops_touch_one_base, law_every_affix_is_counted, law_ranges_are_looked_up,
    lookup_range, recorded, tier_map, with_affixes, Summary, TierKey,
};
use crate::text::{joined, spelled, texts};

verus! {

/// So many kills give so many drops, each of the level that was asked for and rolled by the
/// generator of the seed. Without bases there is none, and only then.
pub proof fn law_runs_of_drops(
    seed: u64,
    kills: u32,
    bases: &[BaseItem],
    affixes: &[Affix],
    ilvl: u32,
    r: Result<Vec<ItemInstance>, RollError>,
    i: int,
)
    requires
        bases@.len() <= u64::MAX,
        can_drop(bases@, affixes@, ilvl),
        call_ensures(roll_drops, (seed, kills, bases, affixes, ilvl), r),
    ensures
        r is Err <==> kills > 0 && bases@.len() == 0,
        r matches Ok(items) ==> items@.len() == kills && (0 <= i < kills ==> falls(
            items@[i],
            seed,
            bases@,
            affixes@,
            ilvl,
        )),
{
    if let Ok(items) = r {
        if 0 <= i < kills {
            let after = choose|after: RngState| #[trigger]
                are_drops(items@, RngState::fresh(seed), after, bases@, affixes@, ilvl);
            law_every_drop_is_rolled(
                items@,
                RngState::fresh(seed),
                after,
                bases@,
                affixes@,
                ilvl,
                i,
            );
        }
    }
}

/// The combinations for a base are exactly those of one fitting attachment for each slot that
/// anything fits.
pub proof fn law_combinations(
    base: &BaseItem,
    attachments: &[Attachment],
    combos: Vec<Vec<String>>,
    c: Seq<Seq<char>>,
)
    requires
        call_ensures(loadout_combos, (base, attachments), combos),
    ensures
        ({
            let slots = usable_slots(*base, attachments@, base.attachment_slots@.len() as int);
            combo_texts(combos@).contains(c) <==> slots.len() > 0 && one_for_each(
                *base,
                attachments@,
                slots,
                c,
            )
        }),
{
    law_combos_fill_every_usable_slot(*base, attachments@, c);
}

/// The best combination does at least as much damage as any other and more than any before it;
/// there is one wherever any does more than -1.
pub proof fn law_the_best_combination(
    combos: &Vec<Vec<String>>,
    dps: &Vec<Scalar>,
    best: Option<usize>,
    chosen: Vec<String>,
    i: int,
)
    requires
        combos@.len() == dps@.len(),
        call_ensures(best_combo, (dps,), best),
        call_ensures(optimal_loadout, (combos, dps), chosen),
        0 <= i < dps@.len(),
        !dps@[i].is_nan(),
    ensures
        best matches Some(k) ==> {
            &&& k < dps@.len()
            &&& dps@[i].value() <= dps@[k as int].value()
            &&& i < k ==> dps@[i].value() < dps@[k as int].value()
            &&& chosen@ == combos@[k as int]@
        },
        best is None ==> dps@[i].value() <= (Scalar { bits: 0xbf80_0000 }).value()
            && chosen@.len() == 0,
{
    let n = dps@.len() as int;
    law_best_is_best(dps@, n, i);
    crate::sim::loadout::lemma_no_best(dps@, n);
}

/// What times to kill are measured against.
pub proof fn law_the_baseline(enemies: &[Enemy], c: Combatant, k: int)
    requires
        call_ensures(baseline, (enemies,), c),
        0 <= k <= enemies@.len(),
        forall|j: int| 0 <= j < k ==> (#[trigger] enemies@[j]).id@ != "basic_zombie"@,
        k < enemies@.len() ==> enemies@[k].id@ == "basic_zombie"@,
    ensures
        k < enemies@.len() ==> c.max_life == enemies@[k].max_life && c.armor == enemies@[k].armor
            && c.evasion == enemies@[k].evasion,
        k == enemies@.len() && k > 0 ==> c.max_life == enemies@[0].max_life,
        enemies@.len() == 0 ==> c.max_life.bits == 0x42c8_0000,
        c.current_life == c.max_life,
{
    law_baselines(enemies@, k);
}

/// Estimates are put together as they are, and a time that is never reached counts as zero.
pub proof fn law_measuring(
    dps: Scalar,
    seconds: Scalar,
    e: Estimate,
    naked: Estimate,
    kitted: Estimate,
    per_enemy: &Vec<Option<Scalar>>,
    m: DropMetrics,
    i: int,
)
    requires
        call_ensures(naked_metrics, (dps, Some(seconds)), e),
        call_ensures(measure, (naked, kitted, per_enemy), m),
        0 <= i < per_enemy@.len(),
    ensures
        e.dps == dps,
        !dps.is_nan() && dps.value() > 0 ==> e.ttk == seconds,
        dps.is_nan() || dps.value() <= 0 ==> e.ttk.bits == 0,
        m.dps == naked.dps && m.ttk == naked.ttk,
        m.kit_dps == kitted.dps && m.kit_ttk == kitted.ttk,
        m.ttk_per_enemy@.len() == per_enemy@.len(),
        per_enemy@[i] matches Some(t) ==> m.ttk_per_enemy@[i] == t,
        per_enemy@[i] is None ==> m.ttk_per_enemy@[i].bits == 0,
{
}

/// Recording a drop counts it once: in all, in its rarity, in its base and in the tier of each
/// of its affixes.
pub proof fn law_recording(
    s: &mut Summary,
    item: &ItemInstance,
    dps: Scalar,
    ttk: Scalar,
    values: &Vec<Vec<Scalar>>,
    key: TierKey,
    other: Rarity,
)
    requires
        old(s).wf(),
        old(s).has_room(*item),
        values@.len() == item.prefixes@.len() + item.suffixes@.len(),
        call_ensures(Summary::record, (s, item, dps, ttk, values), ()),
    ensures
        final(s).wf(),
        final(s).drops == old(s).drops + 1,
        final(s).rarities@[other.rank()].count == old(s).rarities@[other.rank()].count + (if other
            == item.rarity {
            1int
        } else {
            0
        }),
        other == item.rarity ==> final(s).rarities@[other.rank()].sum_affixes
            == old(s).rarities@[other.rank()].sum_affixes + values@.len(),
        base_map(final(s).by_base@).dom().contains(item.base@),
        base_map(final(s).by_base@)[item.base@].dps.last() == dps,
        recorded(tier_map(final(s).by_affix_tier@), key) == recorded(
            tier_map(old(s).by_affix_tier@),
            key,
        ) + item.prefixes@.filter(
            |a: RolledAffix| a.affix_id@ == key.0 && a.tier == key.1,
        ).len() + item.suffixes@.filter(
            |a: RolledAffix| a.affix_id@ == key.0 && a.tier == key.1,
        ).len(),
{
    let p = item.prefixes@;
    let q = item.suffixes@;
    let before = tier_map(old(s).by_affix_tier@);
    let mid = with_affixes(before, p, values@, 0, p.len() as int);
    law_every_affix_is_counted(before, p, values@, 0, p.len() as int, key);
    law_every_affix_is_counted(mid, q, values@, p.len() as int, q.len() as int, key);
    assert(p.take(p.len() as int) =~= p);
    assert(q.take(q.len() as int) =~= q);
    law_drops_touch_one_base(
        base_map(old(s).by_base@),
        item.base@,
        dps,
        ttk,
        item.rarity.rank(),
        item.base@,
    );
    assert(old(s).rarities@[item.rarity.rank()].count <= old(s).drops);
}

/// A report names the run, then every rarity, every base and every affix tier, each in a row
/// of its own.
pub proof fn law_reporting(
    s: &Summary,
    seed: u64,
    ilvl: u32,
    cells: &Cells,
    lines: Vec<String>,
    r: Rarity,
    i: int,
)
    requires
        s.wf(),
        cells.cover(*s),
        call_ensures(Summary::print, (s, seed, ilvl, cells), lines),
    ensures
        ({
            let n = lines@.len();
            let bases = s.by_base@.len();
            let tiers = s.by_affix_tier@.len();
            &&& n >= 13 + bases + tiers
            &&& lines@[1]@ == run_line(seed, ilvl, s.drops)
            &&& lines@[4 + r.rank()]@ == rarity_row(
                r,
                s.rarities@[r.rank()],
                cells.rarities@[r.rank()],
            )
            &&& 0 <= i < bases ==> lines@[11 + i]@ == base_row(s.by_base@[i], cells.bases@[i])
            &&& 0 <= i < tiers ==> lines@[n - tiers + i]@ == affix_row(
                s.by_affix_tier@[i],
                cells.affixes@[i],
            )
        }),
{
    law_report_layout(*s, seed, ilvl, *cells, r, i);
    let t = texts(lines@);
    assert(t[1] == lines@[1]@);
    assert(t[4 + r.rank()] == lines@[4 + r.rank()]@);
    if 0 <= i < s.by_base@.len() {
        assert(t[11 + i] == lines@[11 + i]@);
    }
    let at = lines@.len() - s.by_affix_tier@.len() + i;
    if 0 <= i < s.by_affix_tier@.len() {
        assert(t[at] == lines@[at]@);
    }
}

/// A row of values has eight columns, and says what the drop is.
pub proof fn law_writing_rows(
    kill: u32,
    item: &ItemInstance,
    dps: &String,
    ttk: &String,
    rolls: &Vec<Vec<String>>,
    s: String,
)
    requires
        rolls@.len() == item.prefixes@.len() + item.suffixes@.len(),
        call_ensures(write_row, (kill, item, dps, ttk, rolls), s),
    ensures
        exists|c: Seq<Seq<char>>|
            {
                &&& s@ == #[trigger] joined(c, ","@)
                &&& c.len() == 8
                &&& spelled(c[0], 10) == kill
                &&& c[1] == item.rarity.label()
                &&& c[2] == item.base@
                &&& spelled(c[3], 10) == item.ilvl
                &&& spelled(c[4], 10) == item.prefixes@.len() + item.suffixes@.len()
                &&& c[5] == dps@
                &&& c[6] == ttk@
            },
{
    law_rows_of_values(kill, *item, dps@, ttk@, rolls@, 0);
}

/// The range that is looked up is that of the first stat of the tier, in the last affix of
/// that id.
pub proof fn law_looking_ranges_up(
    affixes: &[Affix],
    id: &String,
    tier: u8,
    range: (Scalar, Scalar),
    i: int,
    j: int,
)
    requires
        call_ensures(lookup_range, (affixes, id, tier), range),
        0 <= i < affixes@.len(),
        affixes@[i].id@ == id@,
        forall|k: int| i < k < affixes@.len() ==> (#[trigger] affixes@[k]).id@ != id@,
        0 <= j < affixes@[i].tiers@.len(),
        affixes@[i].tiers@[j].tier == tier,
        forall|k: int| 0 <= k < j ==> (#[trigger] affixes@[i].tiers@[k]).tier != tier,
        affixes@[i].tiers@[j].stats@.len() > 0,
    ensures
        range.0 == affixes@[i].tiers@[j].stats@[0].min,
        range.1 == affixes@[i].tiers@[j].stats@[0].max,
{
    law_ranges_are_looked_up(affixes@, id@, tier, range, i, j);
}

/// A weapon is measured bare but for the combination.
pub proof fn law_benching(base: &BaseItem, combo: &Vec<String>, item: ItemInstance)
    requires
        call_ensures(bench_item, (base, combo), item),
    ensures
        item.base@ == base.id@,
        texts(item.attached@) == texts(combo@),
        item.prefixes@.len() + item.suffixes@.len() == 0,
        item.upgrade_tier == 0,
{
}

} // verus!
