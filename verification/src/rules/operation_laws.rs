//! What the operations of the rules do, said of what goes into a call and what comes out of
//! it.

use vstd::arithmetic::power2::pow2;
use vstd::prelude::*;

use crate::rng::{answer_word32, answer_word64, Draw, RngState, SeededRng};
use crate::rules::affix::{Affix, AffixSlot};
use crate::rules::aggregate::{aggregate_item, StatSheet};
use crate::rules::aggregate_laws::{
    attached_as, bases_of, brought_by_affixes, brought_by_attached, counts_in, held_by,
    law_every_attachment_counts, law_every_intrinsic_counts, law_every_roll_counts,
    law_nothing_counts_twice, rolled_from,
};
use crate::rules::attach::{law_slots_are_occupied_by_the_first, occupies, try_attach, AttachError};
use crate::rules::combat::{
    armor_mitigation, dodge_chance, expected_hit_damage, law_defenses_follow_the_ratio,
    law_fights_take_turns, law_hits_take_their_own_arithmetic, law_shots_follow_the_draws,
    resolve_hit, shot_period, simulate_fight, stat_of, time_to_kill, Aimed, Combatant, FightAction,
    FightOutcome, FightPhase, FightState, Fighter, HitResult, StatValue, Weapon,
};
use crate::rules::item::{Attachment, BaseItem, ItemInstance, Rarity, Roll, RolledAffix};
use crate::rules::progression::{
    law_each_level_takes_100_more, law_level_is_the_highest, level_for_total_xp, xp_curve,
    xp_for_next_level, xp_to_reach,
};
use crate::rules::rarity::{law_rarity_follows_the_draw, roll_rarity};
use crate::rules::roll::{
    can_roll, counts, item_demand, roll_item, rolled_item, Demand, RollError,
};
use crate::rules::roll_laws::{
    affixes_before, law_affixes_are_picked_by_weight, law_affixes_read_as_picked,
    law_every_affix_owns_its_numbers, law_items_are_drawn_in_order, law_rolled_affixes, less,
    lemma_affixes_before_of_base, picked_by_weight,
};
use crate::rules::stats::{
    aggregate, law_buckets_hold_their_kind, law_buckets_partition, Modifier, ModifierKind, Terms,
};
use crate::rules::upgrade::{
    disenchant_value, total_upgrade_cost, upgrade_cost, upgrade_scale,
};
use crate::scalar::Scalar;
use crate::text::{law_listed_texts, texts};

verus! {

/// A rolled item is of one of the bases, which the first draw picks with the same chance for
/// each; its seed is the next word. It is of the level and rarity that were asked for, and
/// fresh. It has no more affixes than its rarity allows. Without bases, and only then, there
/// is nothing to roll.
pub proof fn law_rolled_items(
    rng: &mut SeededRng,
    bases: &[BaseItem],
    affixes: &[Affix],
    ilvl: u32,
    rarity: Rarity,
    r: Result<ItemInstance, RollError>,
)
    requires
        bases@.len() <= u64::MAX,
        can_roll(bases@, affixes@, ilvl, rarity),
        call_ensures(roll_item, (rng, bases, affixes, ilvl, rarity), r),
    ensures
        r is Err <==> bases@.len() == 0,
        r matches Ok(item) ==> {
            let g = old(rng)@;
            let last = (bases@.len() - 1) as u64;
            let n = item.prefixes@.len() + item.suffixes@.len();
            &&& item.base@ == bases@[g.range64(0, last) as int].id@
            &&& item.seed == answer_word64(
                g.seed,
                g.past.push(Draw::Range64 { first: 0, last }),
            )
            &&& item.ilvl == ilvl
            &&& item.rarity == rarity
            &&& item.upgrade_tier == 0
            &&& item.attached@.len() == 0
            &&& item.prefixes@.len() <= 3 && item.suffixes@.len() <= 3
            &&& rarity == Rarity::Basic ==> n == 0
            &&& rarity == Rarity::Common ==> n <= 2
            &&& rarity == Rarity::Rare ==> n <= 4
            &&& rarity == Rarity::Epic ==> n <= 5
            &&& rarity == Rarity::Legendary ==> n <= 6
        },
{
    if bases@.len() > 0 {
        let g = old(rng)@;
        let rolled = rolled_item(g, bases@, affixes@, ilvl, rarity);
        law_items_are_drawn_in_order(g, bases@, affixes@, ilvl, rarity);
        law_rolled_affixes(g, bases@, affixes@, ilvl, rarity);
        law_affixes_read_as_picked(
            r->Ok_0,
            bases@,
            affixes@,
            ilvl,
            rarity,
            rolled,
            0,
            0,
        );
    }
}

/// The first prefix of a rolled item is the one that owns the number drawn for it: of the
/// numbers below the weight of all prefixes that the item may get, those from the weight of
/// the ones before it in the table on, as many as it weighs itself. There is a first prefix
/// exactly where one is called for and any of them has weight.
pub proof fn law_first_prefix_owns_its_number(
    rng: &mut SeededRng,
    bases: &[BaseItem],
    affixes: &[Affix],
    ilvl: u32,
    rarity: Rarity,
    item: ItemInstance,
)
    requires
        0 < bases@.len() <= u64::MAX,
        rarity != Rarity::Basic,
        can_roll(bases@, affixes@, ilvl, rarity),
        call_ensures(
            roll_item,
            (rng, bases, affixes, ilvl, rarity),
            Ok::<ItemInstance, RollError>(item),
        ),
    ensures
        ({
            let g = old(rng)@;
            let all = affixes@;
            let last = (bases@.len() - 1) as u64;
            let past = g.past.push(Draw::Range64 { first: 0, last }).push(Draw::Word64);
            let ((p, s), h) = counts(RngState { seed: g.seed, past }, rarity);
            let d = item_demand(
                bases@[g.range64(0, last) as int],
                ilvl,
                rarity,
                AffixSlot::Prefix,
            );
            let total = affixes_before(all, d, all.len() as int);
            let n = h.range32(0, (total - 1) as u32);
            &&& item.prefixes@.len() > 0 <==> p > 0 && total > 0
            &&& item.prefixes@.len() > 0 ==> exists|k: int|
                0 <= k < all.len() && (#[trigger] all[k]).id@ == item.prefixes@[0].affix_id@
                    && affixes_before(all, d, k) <= n < affixes_before(all, d, k + 1)
        }),
{
    let g = old(rng)@;
    let all = affixes@;
    let last = (bases@.len() - 1) as u64;
    let rolled = rolled_item(g, bases@, all, ilvl, rarity);
    law_items_are_drawn_in_order(g, bases@, all, ilvl, rarity);
    law_affixes_read_as_picked(item, bases@, all, ilvl, rarity, rolled, 0, 0);
    let past = g.past.push(Draw::Range64 { first: 0, last }).push(Draw::Word64);
    let ((p, s), h) = counts(RngState { seed: g.seed, past }, rarity);
    let base = bases@[g.range64(0, last) as int];
    let d = item_demand(base, ilvl, rarity, AffixSlot::Prefix);
    lemma_affixes_before_of_base(base, all, ilvl, rarity);
    assert(crate::rules::roll::base_fits(base, all, ilvl, rarity));
    law_affixes_are_picked_by_weight(h, all, d);
    assert(less(d, all, Seq::empty()).taken =~= d.taken);
    let set = crate::rules::roll::rolled_set(h, all, d, p as nat);
    assert(rolled.prefixes == set.0);
    let total = affixes_before(all, d, all.len() as int);
    let n = h.range32(0, (total - 1) as u32);
    match crate::rules::roll::rolled_one(h, all, d).0 {
        Some(q) => {
            if p > 0 {
                assert(set.0.len() > 0 && set.0[0] == q);
                assert(item.prefixes@.len() > 0);
                let k = q.affix;
                assert(0 <= k < all.len() && all[k].id@ == item.prefixes@[0].affix_id@);
                assert(affixes_before(all, d, k) <= n < affixes_before(all, d, k + 1));
            } else {
                assert(set.0.len() == 0);
            }
        },
        None => {
            assert(set.0.len() == 0);
        },
    }
}

/// How rare a drop is depends on one number out of a thousand: the lower, the rarer.
pub proof fn law_rolled_rarities(rng: &mut SeededRng, r: Rarity)
    requires
        call_ensures(roll_rarity, (rng,), r),
    ensures
        ({
            let n = old(rng)@.range32(0, 999);
            &&& r == Rarity::Legendary <==> n < 5
            &&& r == Rarity::Epic <==> 5 <= n < 30
            &&& r == Rarity::Rare <==> 30 <= n < 120
            &&& r == Rarity::Common <==> 120 <= n < 400
            &&& r == Rarity::Basic <==> 400 <= n
        }),
{
    law_rarity_follows_the_draw(old(rng)@);
}

/// A shot, from the draws to what is left of the target. It is dodged if the target has
/// evasion and the first draw falls below the chance, the ratio or a half if that is less.
/// Otherwise it is critical if the next draw falls below the weapon's chance. What it takes
/// and deals is the arithmetic of a critical hit if it is one and of a plain hit if not; all
/// of the damage is dealt where there is no armor.
pub proof fn law_resolved_shots(
    rng: &mut SeededRng,
    weapon: &Weapon,
    target: &mut Combatant,
    aimed: &Aimed,
    result: HitResult,
)
    requires
        call_ensures(resolve_hit, (rng, weapon, target, aimed), result),
    ensures
        ({
            let g = old(rng)@;
            let t = *old(target);
            let after = *final(target);
            let half = Scalar { bits: 0x3f00_0000 };
            let chance = if aimed.ratio.is_nan() || aimed.ratio.value() > half.value() {
                half
            } else {
                aimed.ratio
            };
            let evades = (t.evasion.is_nan() || t.evasion.value() > 0) && chance.value() > 0;
            let crits = !weapon.crit_chance.is_nan() && weapon.crit_chance.value() > 0;
            let first = answer_word32(g.seed, g.past) >> 8;
            let past = if evades {
                g.past.push(Draw::Word32)
            } else {
                g.past
            };
            let second = answer_word32(g.seed, past) >> 8;
            &&& result == HitResult::Dodged <==> evades && first * pow2(125) < chance.value()
            &&& result == HitResult::Dodged ==> after == t
            &&& result matches HitResult::Hit { damage_dealt, was_crit } ==> {
                let (hit, blow) = if was_crit {
                    (aimed.crit_damage, aimed.crit)
                } else {
                    (weapon.damage_per_shot, aimed.plain)
                };
                let bare = (!t.armor.is_nan() && t.armor.value() <= 0) || (!hit.is_nan()
                    && hit.value() <= 0);
                let absorbs = blow.ratio.is_nan() || blow.ratio.value() > 0;
                &&& was_crit <==> crits && second * pow2(125) < weapon.crit_chance.value()
                &&& bare ==> damage_dealt == hit
                &&& !bare && absorbs ==> damage_dealt == blow.mitigated
                &&& after == (Combatant { current_life: after.current_life, ..t })
                &&& !blow.left.is_nan() && blow.left.value() >= 0 ==> after.current_life
                    == blow.left
                &&& blow.left.is_nan() || blow.left.value() < 0 ==> after.current_life.bits == 0
            }
        }),
{
    law_shots_follow_the_draws(old(rng)@, *weapon, *old(target), *aimed);
    law_hits_take_their_own_arithmetic(*aimed, *weapon, *old(target), true);
    law_hits_take_their_own_arithmetic(*aimed, *weapon, *old(target), false);
}

/// What defenses do: nothing without evasion, armor or damage; otherwise what the ratio says,
/// up to a half and up to 85 percent.
pub proof fn law_defenses(
    evasion: &Scalar,
    armor: &Scalar,
    hit: &Scalar,
    ratio: Scalar,
    dodge: Scalar,
    mitigation: Scalar,
)
    requires
        call_ensures(dodge_chance, (evasion, ratio), dodge),
        call_ensures(armor_mitigation, (armor, hit, ratio), mitigation),
    ensures
        ({
            let most_dodged = Scalar { bits: 0x3f00_0000 };
            let most_absorbed = Scalar { bits: 0x3f59_999a };
            let evades = evasion.is_nan() || evasion.value() > 0;
            let armored = (armor.is_nan() || armor.value() > 0) && (hit.is_nan() || hit.value()
                > 0);
            &&& !evades ==> dodge.bits == 0
            &&& evades && !ratio.is_nan() && ratio.value() <= most_dodged.value() ==> dodge == ratio
            &&& evades && (ratio.is_nan() || ratio.value() > most_dodged.value()) ==> dodge
                == most_dodged
            &&& !armored ==> mitigation.bits == 0
            &&& armored && !ratio.is_nan() && ratio.value() <= most_absorbed.value() ==> mitigation
                == ratio
            &&& armored && (ratio.is_nan() || ratio.value() > most_absorbed.value()) ==> mitigation
                == most_absorbed
        }),
{
    law_defenses_follow_the_ratio(*evasion, *armor, *hit, ratio);
}

/// What is expected of a weapon: nothing without damage; a target that takes none per second
/// is never killed; and a weapon without a fire rate never fires.
pub proof fn law_expectations(
    weapon: &Weapon,
    folded: Scalar,
    damage: Scalar,
    dps: &Scalar,
    seconds: Scalar,
    t: Option<Scalar>,
    period: Scalar,
    p: Scalar,
)
    requires
        call_ensures(expected_hit_damage, (weapon, folded), damage),
        call_ensures(time_to_kill, (dps, seconds), t),
        call_ensures(shot_period, (&weapon.fire_rate, period), p),
    ensures
        weapon.damage_per_shot.is_nan() || weapon.damage_per_shot.value() > 0 ==> damage == folded,
        !weapon.damage_per_shot.is_nan() && weapon.damage_per_shot.value() <= 0 ==> damage.bits
            == 0,
        t is Some <==> dps.is_nan() || dps.value() > 0,
        t matches Some(s) ==> s == seconds,
        !weapon.fire_rate.is_nan() && weapon.fire_rate.value() > 0 ==> p == period,
        weapon.fire_rate.is_nan() || weapon.fire_rate.value() <= 0 ==> p.bits == 0x7f80_0000,
{
}

/// A fighter starts with what they have, and fires first after one period, or never.
pub proof fn law_fighters_wait_one_period(c: Combatant, w: Weapon, period: Scalar, f: Fighter)
    requires
        call_ensures(Fighter::new, (c, w, period), f),
    ensures
        f.combatant == c,
        f.weapon == w,
        !w.fire_rate.is_nan() && w.fire_rate.value() > 0 ==> f.next_shot_at == period,
        w.fire_rate.is_nan() || w.fire_rate.value() <= 0 ==> f.next_shot_at.bits == 0x7f80_0000,
{
}

/// A character's defenses come from the gear, and the life is given.
pub proof fn law_characters_from_gear(stats: &[StatValue], life: Scalar, c: Combatant, i: int)
    requires
        call_ensures(Combatant::from_armor_stats, (stats, life), c),
        0 <= i < stats@.len(),
    ensures
        c.max_life == life,
        c.current_life == life,
        stats@[i].stat@ == "armor"@ && (forall|j: int|
            0 <= j < i ==> (#[trigger] stats@[j]).stat@ != "armor"@) ==> c.armor == stats@[i].value,
        stats@[i].stat@ == "evasion"@ && (forall|j: int|
            0 <= j < i ==> (#[trigger] stats@[j]).stat@ != "evasion"@) ==> c.evasion
            == stats@[i].value,
{
    if stats@[i].stat@ == "armor"@ && (forall|j: int|
        0 <= j < i ==> (#[trigger] stats@[j]).stat@ != "armor"@) {
        crate::rules::combat::law_first_entry_counts(stats@, "armor"@, i);
    }
    if stats@[i].stat@ == "evasion"@ && (forall|j: int|
        0 <= j < i ==> (#[trigger] stats@[j]).stat@ != "evasion"@) {
        crate::rules::combat::law_first_entry_counts(stats@, "evasion"@, i);
    }
}

/// What a fight does next, and in which phase it is then.
pub proof fn law_fights(
    phase: FightPhase,
    state: &FightState,
    max_time: &Scalar,
    r: (FightAction, FightPhase),
)
    requires
        call_ensures(simulate_fight, (phase, state, max_time), r),
    ensures
        ({
            let due = |at: Scalar| !at.is_nan() && !state.time.is_nan() && at.value()
                <= state.time.value();
            let gone = |life: Scalar| !life.is_nan() && life.value() <= 0;
            let lasts = !state.time.is_nan() && !max_time.is_nan() && state.time.value()
                < max_time.value();
            let player_due = due(state.player.next_shot_at);
            let enemy_due = due(state.enemy.next_shot_at);
            let enemy_gone = gone(state.enemy.combatant.current_life);
            let player_gone = gone(state.player.combatant.current_life);
            let enemys_turn = (phase == FightPhase::Advanced && !player_due) || (phase
                == FightPhase::PlayerFired && !enemy_gone);
            let over = phase == FightPhase::StepDone || (phase == FightPhase::EnemyFired
                && !player_gone) || (enemys_turn && !enemy_due);
            &&& r.0 == FightAction::PlayerFires <==> phase == FightPhase::Advanced && player_due
            &&& r.0 == FightAction::EnemyFires <==> enemys_turn && enemy_due
            &&& r.0 == FightAction::End(FightOutcome::PlayerWins) <==> phase
                == FightPhase::PlayerFired && enemy_gone
            &&& r.0 == FightAction::End(FightOutcome::PlayerLoses) <==> phase
                == FightPhase::EnemyFired && player_gone
            &&& r.0 == FightAction::Advance <==> over && lasts
            &&& r.0 == FightAction::End(FightOutcome::Timeout) <==> over && !lasts
            &&& r.0 == FightAction::Advance ==> r.1 == FightPhase::Advanced
            &&& r.0 == FightAction::PlayerFires ==> r.1 == FightPhase::PlayerFired
            &&& r.0 == FightAction::EnemyFires ==> r.1 == FightPhase::EnemyFired
        }),
{
    law_fights_take_turns(phase, *state, *max_time);
}

/// Every roll of every affix of an item counts in its sheet, in the entry of its stat and
/// among those of its kind.
pub proof fn law_sheets_count_every_roll(
    item: &ItemInstance,
    base: &BaseItem,
    affixes: &[Affix],
    attachments: &[Attachment],
    sheet: StatSheet,
    i: int,
    r: RolledAffix,
    k: int,
    t: int,
    s: int,
)
    requires
        call_ensures(aggregate_item, (item, base, affixes, attachments), sheet),
        (0 <= i < item.prefixes@.len() && r == item.prefixes@[i]) || (0 <= i
            < item.suffixes@.len() && r == item.suffixes@[i]),
        rolled_from(r, affixes@, k, t),
        0 <= s < affixes@[k].tiers@[t].stats@.len(),
        s < r.rolls@.len(),
    ensures
        counts_in(
            sheet,
            affixes@[k].tiers@[t].stats@[s].stat@,
            affixes@[k].tiers@[t].stats@[s].kind,
            r.rolls@[s],
        ),
{
    law_every_roll_counts(sheet, *item, *base, affixes@, attachments@, i, r, k, t, s);
}

/// Every modifier of every attachment of an item counts in its sheet, and so does every value
/// of the base. Together that is all that counts. Upgrades add 8 percent each, up to five.
pub proof fn law_sheets_count_everything_once(
    item: &ItemInstance,
    base: &BaseItem,
    affixes: &[Affix],
    attachments: &[Attachment],
    sheet: StatSheet,
    i: int,
    k: int,
    s: int,
)
    requires
        call_ensures(aggregate_item, (item, base, affixes, attachments), sheet),
    ensures
        0 <= i < item.attached@.len() && attached_as(item.attached@[i]@, attachments@, k) && 0 <= s
            < attachments@[k].modifiers@.len() ==> {
            let m = attachments@[k].modifiers@[s];
            counts_in(sheet, m.stat@, m.kind, Roll { min: m.value, max: m.value, draw: 0 })
        },
        0 <= i < base.intrinsic_stats@.len() ==> exists|e: int|
            0 <= e < sheet.stats@.len() && (#[trigger] sheet.stats@[e]).stat@
                == base.intrinsic_stats@[i].stat@ && sheet.stats@[e].terms.base@.contains(
                base.intrinsic_stats@[i].value,
            ),
        held_by(sheet.stats@, sheet.stats@.len() as int) == brought_by_affixes(
            item.prefixes@,
            affixes@,
            item.prefixes@.len() as int,
        ) + brought_by_affixes(item.suffixes@, affixes@, item.suffixes@.len() as int)
            + brought_by_attached(item.attached@, attachments@, item.attached@.len() as int),
        bases_of(sheet.stats@, sheet.stats@.len() as int) == base.intrinsic_stats@.len(),
        sheet.scale_percent == 100 + 8 * if item.upgrade_tier < 5 {
            item.upgrade_tier as int
        } else {
            5
        },
{
    law_nothing_counts_twice(sheet, *item, *base, affixes@, attachments@, 0, 0);
    if 0 <= i < item.attached@.len() && attached_as(item.attached@[i]@, attachments@, k) && 0 <= s
        < attachments@[k].modifiers@.len() {
        law_every_attachment_counts(sheet, *item, *base, affixes@, attachments@, i, k, s);
    }
    if 0 <= i < base.intrinsic_stats@.len() {
        law_every_intrinsic_counts(sheet, *item, *base, affixes@, attachments@, i);
    }
}

/// Every modifier goes to the terms of its kind, and to no others.
pub proof fn law_modifiers_are_sorted(
    base: Vec<Scalar>,
    modifiers: &[Modifier],
    terms: Terms,
    v: Roll,
)
    requires
        call_ensures(aggregate, (base, modifiers), terms),
    ensures
        terms.base == base,
        terms.flat@.contains(v) <==> modifiers@.contains(
            Modifier { kind: ModifierKind::Flat, value: v },
        ),
        terms.increased@.contains(v) <==> modifiers@.contains(
            Modifier { kind: ModifierKind::Increased, value: v },
        ),
        terms.more@.contains(v) <==> modifiers@.contains(
            Modifier { kind: ModifierKind::More, value: v },
        ),
        terms.flat@.len() + terms.increased@.len() + terms.more@.len() == modifiers@.len(),
{
    law_buckets_hold_their_kind(modifiers@, ModifierKind::Flat, v);
    law_buckets_hold_their_kind(modifiers@, ModifierKind::Increased, v);
    law_buckets_hold_their_kind(modifiers@, ModifierKind::More, v);
    law_buckets_partition(modifiers@);
}

/// An attachment goes onto an item exactly where it is known, the base has a slot of its kind
/// and is of a category that it allows, and nothing on the item takes that slot yet; then it
/// is the last of what is attached, and otherwise nothing changes.
pub proof fn law_attaching(
    item: &mut ItemInstance,
    base: &BaseItem,
    id: &str,
    attachments: &[Attachment],
    r: Result<(), AttachError>,
    k: int,
)
    requires
        call_ensures(try_attach, (item, base, id, attachments), r),
        0 <= k <= attachments@.len(),
        forall|j: int| 0 <= j < k ==> (#[trigger] attachments@[j]).id@ != id@,
        k < attachments@.len() ==> attachments@[k].id@ == id@,
    ensures
        ({
            let new = attachments@[k];
            let before = old(item).attached@;
            let after = final(item).attached@;
            let found = k < attachments@.len();
            let slot = texts(base.attachment_slots@).contains(new.slot_type@);
            let allowed = texts(new.allowed_categories@).contains(base.category@);
            let free = forall|i: int|
                0 <= i < before.len() ==> !occupies(
                    attachments@,
                    (#[trigger] before[i])@,
                    new.slot_type@,
                );
            &&& r is Ok <==> found && slot && allowed && free
            &&& r is Ok ==> texts(after) == texts(before).push(id@)
            &&& r is Err ==> *final(item) == *old(item)
            &&& !found <==> (r matches Err(e) && e is UnknownAttachment)
            &&& found && !slot <==> (r matches Err(e) && e is NoSuchSlot)
            &&& found && slot && !allowed <==> (r matches Err(e) && e is CategoryNotAllowed)
            &&& found && slot && allowed && !free <==> (r matches Err(e)
                && e is SlotAlreadyOccupied)
        }),
{
    law_slots_are_occupied_by_the_first(attachments@, id@, Seq::empty(), k);
    if k < attachments@.len() {
        let new = attachments@[k];
        law_listed_texts(base.attachment_slots@, new.slot_type@);
        law_listed_texts(new.allowed_categories@, base.category@);
        if r is Ok {
            assert(texts(final(item).attached@) =~= texts(old(item).attached@).push(id@));
        }
    }
}

/// What upgrading and scrapping come to.
pub proof fn law_upgrades_and_scrap(
    tier: u8,
    percent: u32,
    cost: Option<u32>,
    rarity: Rarity,
    scrap: u32,
)
    requires
        call_ensures(upgrade_scale, (tier,), percent),
        call_ensures(upgrade_cost, (tier,), cost),
        call_ensures(disenchant_value, (rarity,), scrap),
    ensures
        percent == 100 + 8 * if tier < 5 {
            tier as int
        } else {
            5
        },
        cost is Some <==> tier < 5,
        cost matches Some(c) ==> c == seq![5u32, 15, 40, 100, 250][tier as int],
        scrap == seq![1u32, 3, 10, 30, 100][rarity.rank()],
{
}

/// An upgrade over several tiers costs what its steps cost, and there is none downwards or
/// beyond the fifth.
pub proof fn law_upgrade_paths(from: u8, to: u8, cost: Option<u32>, shorter: Option<u32>)
    requires
        call_ensures(total_upgrade_cost, (from, to), cost),
        from < to <= 5 ==> call_ensures(total_upgrade_cost, (from, (to - 1) as u8), shorter),
    ensures
        cost is Some <==> from <= to <= 5,
        from == to && to <= 5 ==> cost == Some(0u32),
        from < to <= 5 ==> cost->0 == shorter->0 + seq![5u32, 15, 40, 100, 250][to - 1],
{
}

/// What levels take: a hundred XP more each time, up to the thirtieth.
pub proof fn law_levels(level: u8, xp: u64, next: Option<u64>, total: u64, reached: u8, other: u8)
    requires
        1 <= level,
        call_ensures(xp_to_reach, (level,), xp),
        call_ensures(xp_for_next_level, (level,), next),
        call_ensures(level_for_total_xp, (total,), reached),
        1 <= other <= 30,
    ensures
        level == 1 ==> xp == 0,
        level <= 30 ==> xp == 50 * level * (level - 1),
        level > 30 ==> xp == 43500,
        next is Some <==> level < 30,
        next matches Some(n) ==> n == 100 * level,
        1 <= reached <= 30,
        other <= reached <==> 50 * other * (other - 1) <= total,
{
    law_each_level_takes_100_more(level as int);
    law_level_is_the_highest(reached as int, total as int, other as int);
    assert(50 * level * (level - 1) == (level - 1) * level * 50) by (nonlinear_arith);
    assert(50 * other * (other - 1) == (other - 1) * other * 50) by (nonlinear_arith);
    assert(xp_curve(30) == 43500);
    if level == 1 {
        assert(50 * level * (level - 1) == 0) by (nonlinear_arith)
            requires
                level == 1,
        ;
    }
    if other == 1 {
        assert(50 * other * (other - 1) == 0) by (nonlinear_arith)
            requires
                other == 1,
        ;
    }
}

/// Every affix of a rolled item is picked by weight, and so is its tier.
pub proof fn law_rolled_affixes_are_picked_by_weight(
    rng: &mut SeededRng,
    bases: &[BaseItem],
    affixes: &[Affix],
    ilvl: u32,
    rarity: Rarity,
    item: ItemInstance,
    i: int,
)
    requires
        0 < bases@.len() <= u64::MAX,
        can_roll(bases@, affixes@, ilvl, rarity),
        call_ensures(
            roll_item,
            (rng, bases, affixes, ilvl, rarity),
            Ok::<ItemInstance, RollError>(item),
        ),
    ensures
        0 <= i < item.prefixes@.len() ==> exists|d: Demand|
            {
                &&& #[trigger] picked_by_weight(item.prefixes@[i], affixes@, d, old(rng)@.seed)
                &&& d.slot == AffixSlot::Prefix
                &&& d.ilvl == ilvl
                &&& d.tier_floor == (if rarity == Rarity::Legendary {
                    2
                } else {
                    255u8
                })
                &&& d.taken.len() == i
            },
        0 <= i < item.suffixes@.len() ==> exists|d: Demand|
            {
                &&& #[trigger] picked_by_weight(item.suffixes@[i], affixes@, d, old(rng)@.seed)
                &&& d.slot == AffixSlot::Suffix
                &&& d.ilvl == ilvl
                &&& d.tier_floor == (if rarity == Rarity::Legendary {
                    2
                } else {
                    255u8
                })
                &&& d.taken.len() == item.prefixes@.len() + i
            },
{
    let g = old(rng)@;
    law_every_affix_owns_its_numbers(item, g, bases@, affixes@, ilvl, rarity, i);
}

/// A weapon from its stats: the damage and the crit multiplier are given, the rate is that of
/// its stat, and the crit chance is that of its stat, kept between nothing and one. Five stats
/// make up the damage.
pub proof fn law_weapons_from_stats(
    stats: &[StatValue],
    damage: Scalar,
    multiplier: Scalar,
    w: Weapon,
    terms: Vec<Scalar>,
)
    requires
        call_ensures(Weapon::from_stats, (stats, damage, multiplier), w),
        call_ensures(Weapon::damage_terms, (stats,), terms),
        !stat_of(stats@, "crit_chance"@).is_nan(),
    ensures
        w.damage_per_shot == damage,
        w.crit_multiplier == multiplier,
        w.fire_rate == stat_of(stats@, "fire_rate"@),
        0 <= w.crit_chance.value() <= (Scalar { bits: 0x3f80_0000 }).value(),
        0 <= stat_of(stats@, "crit_chance"@).value() <= (Scalar { bits: 0x3f80_0000 }).value()
            ==> w.crit_chance == stat_of(stats@, "crit_chance"@),
        terms@.len() == 5,
        terms@[0] == stat_of(stats@, "weapon_damage"@),
        terms@[1] == stat_of(stats@, "bullet_damage"@),
        terms@[2] == stat_of(stats@, "incendiary_damage"@),
        terms@[3] == stat_of(stats@, "armor_piercing_damage"@),
        terms@[4] == stat_of(stats@, "explosive_damage"@),
{
    crate::rules::combat::law_chances_are_clamped(stat_of(stats@, "crit_chance"@));
}

} // verus!
