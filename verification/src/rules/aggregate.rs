//! Gathers an item's intrinsic stats, its rolled affixes and its attachments into the
//! terms of the three-tier formula, stat by stat. Single entry point that combat and UI
//! use to read what an item actually contributes.

use vstd::prelude::*;

use crate::rules::affix::{Affix, AffixTier, StatRoll};
use crate::rules::attach::{attachment_of, find_attachment, known};
use crate::rules::item::{
    Attachment, AttachmentModifier, BaseItem, IntrinsicStat, ItemInstance, Roll, RolledAffix,
};
use crate::rules::stats::{aggregate, values_of, Modifier, ModifierKind, StatId, Terms};
use crate::rules::upgrade::{upgrade_scale, MAX_UPGRADE_TIER};
use crate::scalar::Scalar;

verus! {

/// What an item contributes to one stat.
#[derive(Debug)]
pub struct StatTerms {
    pub stat: StatId,
    pub terms: Terms,
}

/// What an item contributes, one entry per stat; all of it is scaled by the same
/// percentage.
#[derive(Debug)]
pub struct StatSheet {
    pub stats: Vec<StatTerms>,
    pub scale_percent: u32,
}

/// A modifier with the stat that it applies to.
#[derive(Debug)]
struct StatModifier {
    stat: String,
    modifier: Modifier,
}

/// Modifiers by the names of the stats that they apply to.
pub type NamedModifiers = Seq<(Seq<char>, Modifier)>;

/// Whether the `k`-th affix is the first with the given id.
pub open spec fn first_affix(affixes: Seq<Affix>, id: Seq<char>, k: int) -> bool {
    &&& 0 <= k < affixes.len()
    &&& affixes[k].id@ == id
    &&& forall|j: int| 0 <= j < k ==> (#[trigger] affixes[j]).id@ != id
}

/// Whether the `k`-th tier is the first of the given number.
pub open spec fn first_tier(tiers: Seq<AffixTier>, tier: u8, k: int) -> bool {
    &&& 0 <= k < tiers.len()
    &&& tiers[k].tier == tier
    &&& forall|j: int| 0 <= j < k ==> (#[trigger] tiers[j]).tier != tier
}

/// The tier that an affix was rolled from, if the affix table holds it.
pub open spec fn source_of(r: RolledAffix, affixes: Seq<Affix>) -> Option<AffixTier> {
    if exists|k: int| first_affix(affixes, r.affix_id@, k) {
        let tiers = affixes[choose|k: int| first_affix(affixes, r.affix_id@, k)].tiers@;
        if exists|t: int| first_tier(tiers, r.tier, t) {
            Some(tiers[choose|t: int| first_tier(tiers, r.tier, t)])
        } else {
            None
        }
    } else {
        None
    }
}

/// The modifiers of a rolled affix: the stats of its tier, paired with its rolls as far
/// as both go. An affix whose template is not in the table contributes nothing.
pub open spec fn rolled_modifiers(r: RolledAffix, affixes: Seq<Affix>) -> NamedModifiers {
    match source_of(r, affixes) {
        None => Seq::empty(),
        Some(tier) => paired(tier.stats@, r.rolls@),
    }
}

/// Stats paired with rolls, as far as both go.
pub open spec fn paired(stats: Seq<StatRoll>, rolls: Seq<Roll>) -> NamedModifiers {
    Seq::new(
        if stats.len() < rolls.len() {
            stats.len()
        } else {
            rolls.len()
        },
        |i: int| (stats[i].stat@, Modifier { kind: stats[i].kind, value: rolls[i] }),
    )
}

/// The modifiers of the first `n` rolled affixes, one after the other.
pub open spec fn affix_modifiers(
    rolled: Seq<RolledAffix>,
    affixes: Seq<Affix>,
    n: int,
) -> NamedModifiers
    decreases n,
{
    if n <= 0 {
        Seq::empty()
    } else {
        affix_modifiers(rolled, affixes, n - 1) + rolled_modifiers(rolled[n - 1], affixes)
    }
}

/// The modifiers of an attachment.
pub open spec fn fixed_modifiers(modifiers: Seq<AttachmentModifier>) -> NamedModifiers {
    modifiers.map_values(
        |m: AttachmentModifier|
            (
                m.stat@,
                Modifier { kind: m.kind, value: Roll { min: m.value, max: m.value, draw: 0 } },
            ),
    )
}

/// The modifiers of the first `n` attached ids, one after the other; unknown ids
/// contribute nothing.
pub open spec fn attached_modifiers(
    attached: Seq<String>,
    attachments: Seq<Attachment>,
    n: int,
) -> NamedModifiers
    decreases n,
{
    if n <= 0 {
        Seq::empty()
    } else if known(attachments, attached[n - 1]@) {
        attached_modifiers(attached, attachments, n - 1) + fixed_modifiers(
            attachment_of(attachments, attached[n - 1]@).modifiers@,
        )
    } else {
        attached_modifiers(attached, attachments, n - 1)
    }
}

/// All modifiers of an item: those of its prefixes, of its suffixes and of its
/// attachments.
pub open spec fn item_modifiers(
    item: ItemInstance,
    affixes: Seq<Affix>,
    attachments: Seq<Attachment>,
) -> NamedModifiers {
    affix_modifiers(item.prefixes@, affixes, item.prefixes@.len() as int) + affix_modifiers(
        item.suffixes@,
        affixes,
        item.suffixes@.len() as int,
    ) + attached_modifiers(item.attached@, attachments, item.attached@.len() as int)
}

/// The modifiers among the first `n` that apply to the given stat, in their order.
pub open spec fn modifiers_for(all: NamedModifiers, stat: Seq<char>, n: int) -> Seq<Modifier>
    decreases n,
{
    if n <= 0 {
        Seq::empty()
    } else if all[n - 1].0 == stat {
        modifiers_for(all, stat, n - 1).push(all[n - 1].1)
    } else {
        modifiers_for(all, stat, n - 1)
    }
}

/// The intrinsic values among the first `n` that a base gives to a stat, in their order.
pub open spec fn intrinsics_for(all: Seq<IntrinsicStat>, stat: Seq<char>, n: int) -> Seq<Scalar>
    decreases n,
{
    if n <= 0 {
        Seq::empty()
    } else if all[n - 1].stat@ == stat {
        intrinsics_for(all, stat, n - 1).push(all[n - 1].value)
    } else {
        intrinsics_for(all, stat, n - 1)
    }
}

/// Whether an item contributes to a stat: its base does, or one of its modifiers.
pub open spec fn concerns(
    stat: Seq<char>,
    intrinsics: Seq<IntrinsicStat>,
    modifiers: NamedModifiers,
) -> bool {
    ||| exists|i: int| 0 <= i < intrinsics.len() && (#[trigger] intrinsics[i]).stat@ == stat
    ||| exists|i: int| 0 <= i < modifiers.len() && (#[trigger] modifiers[i]).0 == stat
}

/// Whether an entry holds what the base and the modifiers contribute to its stat.
pub open spec fn entry_for(
    e: StatTerms,
    intrinsics: Seq<IntrinsicStat>,
    modifiers: NamedModifiers,
) -> bool {
    let mods = modifiers_for(modifiers, e.stat@, modifiers.len() as int);
    &&& e.terms.base@ == intrinsics_for(intrinsics, e.stat@, intrinsics.len() as int)
    &&& e.terms.flat@ == values_of(mods, ModifierKind::Flat)
    &&& e.terms.increased@ == values_of(mods, ModifierKind::Increased)
    &&& e.terms.more@ == values_of(mods, ModifierKind::More)
}

/// Whether the entries name each stat at most once.
pub open spec fn stats_distinct(entries: Seq<StatTerms>) -> bool {
    forall|i: int, j: int|
        0 <= i < j < entries.len() ==> (#[trigger] entries[i]).stat@ != (#[trigger] entries[j]).stat@
}

/// Whether one of the entries is for the given stat.
pub open spec fn has_entry(entries: Seq<StatTerms>, stat: Seq<char>) -> bool {
    exists|i: int| 0 <= i < entries.len() && (#[trigger] entries[i]).stat@ == stat
}

/// The list of modifiers as it reads.
spec fn named(list: Seq<StatModifier>) -> NamedModifiers {
    list.map_values(|m: StatModifier| (m.stat@, m.modifier))
}

/// Finds the tier that an affix was rolled from.
fn find_source<'a>(r: &RolledAffix, affixes: &'a [Affix]) -> (tier: Option<&'a AffixTier>)
    ensures
        match tier {
            None => source_of(*r, affixes@) is None,
            Some(t) => source_of(*r, affixes@) == Some(*t),
        },
{
    let mut k: usize = 0;
    while k < affixes.len()
        invariant
            k <= affixes@.len(),
            forall|j: int| 0 <= j < k ==> (#[trigger] affixes@[j]).id@ != r.affix_id@,
        decreases affixes@.len() - k,
    {
        if affixes[k].id == r.affix_id {
            assert(first_affix(affixes@, r.affix_id@, k as int));
            proof {
                let c = choose|c: int| first_affix(affixes@, r.affix_id@, c);
                assert(first_affix(affixes@, r.affix_id@, c));
                assert(c == k);
            }
            let affix = &affixes[k];
            for t in 0..affix.tiers.len()
                invariant
                    forall|j: int| 0 <= j < t ==> (#[trigger] affix.tiers@[j]).tier != r.tier,
                    exists|c: int| first_affix(affixes@, r.affix_id@, c),
                    *affix == affixes@[choose|c: int| first_affix(affixes@, r.affix_id@, c)],
            {
                if affix.tiers[t].tier == r.tier {
                    assert(first_tier(affix.tiers@, r.tier, t as int));
                    proof {
                        let c = choose|c: int| first_tier(affix.tiers@, r.tier, c);
                        assert(first_tier(affix.tiers@, r.tier, c));
                        assert(c == t);
                    }
                    return Some(&affix.tiers[t]);
                }
            }
            return None;
        }
        k = k + 1;
    }
    None
}

/// Adds the modifiers of some rolled affixes to a list.
fn add_affix_modifiers(list: &mut Vec<StatModifier>, rolled: &Vec<RolledAffix>, affixes: &[Affix])
    ensures
        named(final(list)@) == named(old(list)@) + affix_modifiers(
            rolled@,
            affixes@,
            rolled@.len() as int,
        ),
{
    let ghost start = named(list@);
    assert(start + affix_modifiers(rolled@, affixes@, 0) =~= start);
    for i in 0..rolled.len()
        invariant
            named(list@) == start + affix_modifiers(rolled@, affixes@, i as int),
    {
        let ghost before = named(list@);
        let r = &rolled[i];
        if let Some(tier) = find_source(r, affixes) {
            let n: usize = if tier.stats.len() < r.rolls.len() {
                tier.stats.len()
            } else {
                r.rolls.len()
            };
            let ghost pairs = paired(tier.stats@, r.rolls@);
            assert(before + pairs.take(0) =~= before);
            for s in 0..n
                invariant
                    n == pairs.len(),
                    n <= tier.stats@.len(),
                    n <= r.rolls@.len(),
                    pairs == paired(tier.stats@, r.rolls@),
                    named(list@) == before + pairs.take(s as int),
            {
                let ghost sofar = list@;
                let m = StatModifier {
                    stat: tier.stats[s].stat.clone(),
                    modifier: Modifier { kind: tier.stats[s].kind, value: r.rolls[s] },
                };
                list.push(m);
                assert(named(list@) =~= named(sofar).push(pairs[s as int]));
                assert((before + pairs.take(s as int)).push(pairs[s as int]) =~= before
                    + pairs.take(s + 1));
            }
            assert(pairs.take(n as int) =~= pairs);
            assert(before + pairs =~= start + affix_modifiers(rolled@, affixes@, i + 1));
        } else {
            assert(before =~= start + affix_modifiers(rolled@, affixes@, i + 1));
        }
    }
}

/// Adds the modifiers of the attachments to a list.
fn add_attached_modifiers(
    list: &mut Vec<StatModifier>,
    attached: &Vec<String>,
    attachments: &[Attachment],
)
    ensures
        named(final(list)@) == named(old(list)@) + attached_modifiers(
            attached@,
            attachments@,
            attached@.len() as int,
        ),
{
    let ghost start = named(list@);
    assert(start + attached_modifiers(attached@, attachments@, 0) =~= start);
    for i in 0..attached.len()
        invariant
            named(list@) == start + attached_modifiers(attached@, attachments@, i as int),
    {
        let ghost before = named(list@);
        if let Some(k) = find_attachment(attachments, attached[i].as_str()) {
            let mods = &attachments[k].modifiers;
            let ghost pairs = fixed_modifiers(mods@);
            assert(before + pairs.take(0) =~= before);
            for s in 0..mods.len()
                invariant
                    pairs == fixed_modifiers(mods@),
                    named(list@) == before + pairs.take(s as int),
            {
                let ghost sofar = list@;
                let m = StatModifier {
                    stat: mods[s].stat.clone(),
                    modifier: Modifier { kind: mods[s].kind, value: Roll::fixed(mods[s].value) },
                };
                list.push(m);
                assert(named(list@) =~= named(sofar).push(pairs[s as int]));
                assert((before + pairs.take(s as int)).push(pairs[s as int]) =~= before
                    + pairs.take(s + 1));
            }
            assert(pairs.take(pairs.len() as int) =~= pairs);
            assert(before + pairs =~= start + attached_modifiers(attached@, attachments@, i + 1));
        }
    }
}

/// The entry of one stat.
fn make_entry(stat: &String, intrinsics: &Vec<IntrinsicStat>, list: &Vec<StatModifier>) -> (e:
    StatTerms)
    ensures
        e.stat@ == stat@,
        entry_for(e, intrinsics@, named(list@)),
{
    let mut base: Vec<Scalar> = Vec::new();
    for i in 0..intrinsics.len()
        invariant
            base@ == intrinsics_for(intrinsics@, stat@, i as int),
    {
        if intrinsics[i].stat == *stat {
            base.push(intrinsics[i].value);
        }
    }
    let mut mods: Vec<Modifier> = Vec::new();
    for i in 0..list.len()
        invariant
            mods@ == modifiers_for(named(list@), stat@, i as int),
    {
        assert(named(list@)[i as int].0 == list@[i as int].stat@);
        if list[i].stat == *stat {
            mods.push(list[i].modifier);
        }
    }
    StatTerms { stat: stat.clone(), terms: aggregate(base, mods.as_slice()) }
}

/// Adds the entry of a stat, unless there is one already.
fn add_entry(
    entries: &mut Vec<StatTerms>,
    stat: &String,
    intrinsics: &Vec<IntrinsicStat>,
    list: &Vec<StatModifier>,
)
    requires
        stats_distinct(old(entries)@),
        concerns(stat@, intrinsics@, named(list@)),
        forall|i: int|
            0 <= i < old(entries)@.len() ==> entry_for(
                #[trigger] old(entries)@[i],
                intrinsics@,
                named(list@),
            ) && concerns(old(entries)@[i].stat@, intrinsics@, named(list@)),
    ensures
        stats_distinct(final(entries)@),
        has_entry(final(entries)@, stat@),
        forall|s: Seq<char>| has_entry(old(entries)@, s) ==> has_entry(final(entries)@, s),
        forall|i: int|
            0 <= i < final(entries)@.len() ==> entry_for(
                #[trigger] final(entries)@[i],
                intrinsics@,
                named(list@),
            ) && concerns(final(entries)@[i].stat@, intrinsics@, named(list@)),
{
    for i in 0..entries.len()
        invariant
            entries@ == old(entries)@,
            stats_distinct(entries@),
            forall|k: int|
                0 <= k < entries@.len() ==> entry_for(
                    #[trigger] entries@[k],
                    intrinsics@,
                    named(list@),
                ) && concerns(entries@[k].stat@, intrinsics@, named(list@)),
            forall|k: int| 0 <= k < i ==> (#[trigger] entries@[k]).stat@ != stat@,
    {
        if entries[i].stat == *stat {
            assert(entries@[i as int].stat@ == stat@);
            return ;
        }
    }
    let ghost before = entries@;
    entries.push(make_entry(stat, intrinsics, list));
    assert(entries@[before.len() as int].stat@ == stat@);
    assert forall|s: Seq<char>| has_entry(before, s) implies has_entry(entries@, s) by {
        let k = choose|k: int| 0 <= k < before.len() && (#[trigger] before[k]).stat@ == s;
        assert(entries@[k].stat@ == s);
    }
}

/// Whether a sheet is that of an item: it has one entry for every stat that has either an
/// intrinsic on the base or a modifier on the item, with the terms of its value; and the
/// item's upgrades scale all of them by 8 percent each, up to the highest.
pub open spec fn is_sheet(
    sheet: StatSheet,
    item: ItemInstance,
    base: BaseItem,
    affixes: Seq<Affix>,
    attachments: Seq<Attachment>,
) -> bool {
    let modifiers = item_modifiers(item, affixes, attachments);
    let intrinsics = base.intrinsic_stats@;
    &&& stats_distinct(sheet.stats@)
    &&& forall|s: Seq<char>| #[trigger]
        has_entry(sheet.stats@, s) <==> concerns(s, intrinsics, modifiers)
    &&& forall|i: int|
        0 <= i < sheet.stats@.len() ==> entry_for(
            #[trigger] sheet.stats@[i],
            intrinsics,
            modifiers,
        )
    &&& sheet.scale_percent == if item.upgrade_tier <= MAX_UPGRADE_TIER {
        100 + 8 * item.upgrade_tier
    } else {
        140
    }
}

/// Returns one entry for every stat that has either an intrinsic on `base` or at least
/// one modifier on `item`, with the terms of its value; and the percentage by which the
/// item's upgrades scale all of them.
///
/// Rolled affixes whose `affix_id` or `tier` isn't found in `affixes`, and attached ids
/// that aren't found in `attachments`, are silently skipped.
pub fn aggregate_item(
    item: &ItemInstance,
    base: &BaseItem,
    affixes: &[Affix],
    attachments: &[Attachment],
) -> (sheet: StatSheet)
    ensures
        is_sheet(sheet, *item, *base, affixes@, attachments@),
{
    let mut list: Vec<StatModifier> = Vec::new();
    add_affix_modifiers(&mut list, &item.prefixes, affixes);
    add_affix_modifiers(&mut list, &item.suffixes, affixes);
    add_attached_modifiers(&mut list, &item.attached, attachments);
    let ghost modifiers = named(list@);
    proof {
        let empty = named(Seq::<StatModifier>::empty());
        assert(empty =~= Seq::empty());
        assert(modifiers =~= item_modifiers(*item, affixes@, attachments@));
    }
    let ghost intrinsics = base.intrinsic_stats@;
    let mut stats: Vec<StatTerms> = Vec::new();
    for i in 0..base.intrinsic_stats.len()
        invariant
            intrinsics == base.intrinsic_stats@,
            modifiers == named(list@),
            stats_distinct(stats@),
            forall|k: int|
                0 <= k < stats@.len() ==> entry_for(#[trigger] stats@[k], intrinsics, modifiers)
                    && concerns(stats@[k].stat@, intrinsics, modifiers),
            forall|k: int| 0 <= k < i ==> has_entry(stats@, (#[trigger] intrinsics[k]).stat@),
    {
        assert(intrinsics[i as int].stat@ == intrinsics[i as int].stat@);
        add_entry(&mut stats, &base.intrinsic_stats[i].stat, &base.intrinsic_stats, &list);
    }
    for i in 0..list.len()
        invariant
            intrinsics == base.intrinsic_stats@,
            modifiers == named(list@),
            stats_distinct(stats@),
            forall|k: int|
                0 <= k < stats@.len() ==> entry_for(#[trigger] stats@[k], intrinsics, modifiers)
                    && concerns(stats@[k].stat@, intrinsics, modifiers),
            forall|k: int|
                0 <= k < intrinsics.len() ==> has_entry(stats@, (#[trigger] intrinsics[k]).stat@),
            forall|k: int| 0 <= k < i ==> has_entry(stats@, (#[trigger] modifiers[k]).0),
    {
        assert(modifiers[i as int].0 == list@[i as int].stat@);
        add_entry(&mut stats, &list[i].stat, &base.intrinsic_stats, &list);
    }
    assert forall|s: Seq<char>| #[trigger]
        has_entry(stats@, s) <==> concerns(s, intrinsics, modifiers) by {
        if has_entry(stats@, s) {
            let k = choose|k: int| 0 <= k < stats@.len() && (#[trigger] stats@[k]).stat@ == s;
            assert(concerns(stats@[k].stat@, intrinsics, modifiers));
        }
    }
    StatSheet { stats, scale_percent: upgrade_scale(item.upgrade_tier) }
}

} // verus!
