//! The simulator's drops: one after the other from one generator.

use vstd::prelude::*;

use crate::rng::{RngState, SeededRng};
use crate::rules::affix::Affix;
use crate::rules::item::{BaseItem, ItemInstance};
use crate::rules::rarity::{roll_rarity, rolled_rarity};
use crate::rules::roll::{can_drop, can_roll, is_rolled, roll_item, rolled_item, RollError};
use crate::rules::roll_laws::{
    law_rolls_are_deterministic, lemma_items_keep_the_seed, same_item,
};

verus! {

/// Whether an item is what the generator drops next, and where the generator is then.
pub open spec fn is_next_drop(
    item: ItemInstance,
    g: RngState,
    after: RngState,
    bases: Seq<BaseItem>,
    affixes: Seq<Affix>,
    ilvl: u32,
) -> bool {
    let (rarity, g1) = rolled_rarity(g);
    let rolled = rolled_item(g1, bases, affixes, ilvl, rarity);
    is_rolled(item, bases, affixes, ilvl, rarity, rolled) && after == rolled.rng
}

/// Rolls the next drop: its rarity along the drop curve, then the item.
pub fn next_drop(rng: &mut SeededRng, bases: &[BaseItem], affixes: &[Affix], ilvl: u32) -> (r:
    Result<ItemInstance, RollError>)
    requires
        can_drop(bases@, affixes@, ilvl),
    ensures
        match r {
            Ok(item) => bases@.len() > 0 && is_next_drop(
                item,
                old(rng)@,
                final(rng)@,
                bases@,
                affixes@,
                ilvl,
            ),
            Err(e) => {
                &&& e == RollError::NoBases
                &&& bases@.len() == 0
                &&& final(rng)@ == rolled_rarity(old(rng)@).1
            },
        },
{
    let rarity = roll_rarity(rng);
    assert(can_roll(bases@, affixes@, ilvl, rarity));
    roll_item(rng, bases, affixes, ilvl, rarity)
}

/// Whether some items are what the generator drops one after the other.
pub open spec fn are_drops(
    items: Seq<ItemInstance>,
    g: RngState,
    after: RngState,
    bases: Seq<BaseItem>,
    affixes: Seq<Affix>,
    ilvl: u32,
) -> bool
    decreases items.len(),
{
    if items.len() == 0 {
        after == g
    } else {
        exists|mid: RngState|
            are_drops(items.drop_last(), g, mid, bases, affixes, ilvl) && #[trigger] is_next_drop(
                items.last(),
                mid,
                after,
                bases,
                affixes,
                ilvl,
            )
    }
}

/// Whether some items are what a seed drops one after the other.
pub open spec fn dropped(
    items: Seq<ItemInstance>,
    seed: u64,
    bases: Seq<BaseItem>,
    affixes: Seq<Affix>,
    ilvl: u32,
) -> bool {
    exists|after: RngState| #[trigger]
        are_drops(items, RngState::fresh(seed), after, bases, affixes, ilvl)
}

/// Rolls the drops of so many kills from one seed.
pub fn roll_drops(seed: u64, kills: u32, bases: &[BaseItem], affixes: &[Affix], ilvl: u32) -> (r:
    Result<Vec<ItemInstance>, RollError>)
    requires
        can_drop(bases@, affixes@, ilvl),
    ensures
        match r {
            Ok(items) => {
                &&& items@.len() == kills
                &&& kills > 0 ==> bases@.len() > 0
                &&& dropped(items@, seed, bases@, affixes@, ilvl)
            },
            Err(e) => e == RollError::NoBases && bases@.len() == 0 && kills > 0,
        },
{
    let mut rng = SeededRng::seed_from_u64(seed);
    let mut items: Vec<ItemInstance> = Vec::new();
    for i in 0..kills
        invariant
            can_drop(bases@, affixes@, ilvl),
            items@.len() == i,
            i > 0 ==> bases@.len() > 0,
            are_drops(items@, RngState::fresh(seed), rng@, bases@, affixes@, ilvl),
    {
        let ghost mid = rng@;
        match next_drop(&mut rng, bases, affixes, ilvl) {
            Ok(item) => {
                let ghost before = items@;
                items.push(item);
                proof {
                    assert(items@.drop_last() =~= before);
                    assert(are_drops(
                        items@.drop_last(),
                        RngState::fresh(seed),
                        mid,
                        bases@,
                        affixes@,
                        ilvl,
                    ));
                    assert(is_next_drop(items@.last(), mid, rng@, bases@, affixes@, ilvl));
                }
            },
            Err(e) => {
                return Err(e);
            },
        }
    }
    assert(dropped(items@, seed, bases@, affixes@, ilvl));
    Ok(items)
}

/// The same generator drops the same items and ends up at the same place.
proof fn lemma_same_drops(
    a: Seq<ItemInstance>,
    b: Seq<ItemInstance>,
    g: RngState,
    after_a: RngState,
    after_b: RngState,
    bases: Seq<BaseItem>,
    affixes: Seq<Affix>,
    ilvl: u32,
    i: int,
)
    requires
        a.len() == b.len(),
        are_drops(a, g, after_a, bases, affixes, ilvl),
        are_drops(b, g, after_b, bases, affixes, ilvl),
        0 <= i < a.len(),
    ensures
        same_item(a[i], b[i]),
        after_a == after_b,
    decreases a.len(),
{
    let mid_a = choose|mid: RngState|
        are_drops(a.drop_last(), g, mid, bases, affixes, ilvl) && #[trigger] is_next_drop(
            a.last(),
            mid,
            after_a,
            bases,
            affixes,
            ilvl,
        );
    let mid_b = choose|mid: RngState|
        are_drops(b.drop_last(), g, mid, bases, affixes, ilvl) && #[trigger] is_next_drop(
            b.last(),
            mid,
            after_b,
            bases,
            affixes,
            ilvl,
        );
    if a.len() > 1 {
        lemma_same_drops(
            a.drop_last(),
            b.drop_last(),
            g,
            mid_a,
            mid_b,
            bases,
            affixes,
            ilvl,
            if i < a.len() - 1 {
                i
            } else {
                0
            },
        );
    }
    assert(mid_a == mid_b);
    let (rarity, g1) = rolled_rarity(mid_a);
    law_rolls_are_deterministic(a.last(), b.last(), g1, bases, affixes, ilvl, rarity);
}

/// The same seed drops the same items, however often it is asked: two lists of the same
/// length read the same, item by item.
pub proof fn law_drops_are_deterministic(
    a: Seq<ItemInstance>,
    b: Seq<ItemInstance>,
    seed: u64,
    bases: Seq<BaseItem>,
    affixes: Seq<Affix>,
    ilvl: u32,
    i: int,
)
    requires
        a.len() == b.len(),
        dropped(a, seed, bases, affixes, ilvl),
        dropped(b, seed, bases, affixes, ilvl),
        0 <= i < a.len(),
    ensures
        same_item(a[i], b[i]),
{
    let g = RngState::fresh(seed);
    let after_a = choose|after: RngState| #[trigger]
        are_drops(a, g, after, bases, affixes, ilvl);
    let after_b = choose|after: RngState| #[trigger]
        are_drops(b, g, after, bases, affixes, ilvl);
    lemma_same_drops(a, b, g, after_a, after_b, bases, affixes, ilvl, i);
}

/// Whether an item is what a generator made from the seed drops at some point.
pub open spec fn falls(
    item: ItemInstance,
    seed: u64,
    bases: Seq<BaseItem>,
    affixes: Seq<Affix>,
    ilvl: u32,
) -> bool {
    exists|g: RngState|
        #![trigger rolled_rarity(g)]
        g.seed == seed && {
            let (rarity, h) = rolled_rarity(g);
            &&& item.rarity == rarity
            &&& item.ilvl == ilvl
            &&& is_rolled(
                item,
                bases,
                affixes,
                ilvl,
                rarity,
                rolled_item(h, bases, affixes, ilvl, rarity),
            )
        }
}

/// Every drop of a run is of the level that was asked for, and of the rarity and with the
/// affixes that the generator rolls for it: first the rarity along the drop curve, then the
/// item.
pub proof fn law_every_drop_is_rolled(
    items: Seq<ItemInstance>,
    g: RngState,
    after: RngState,
    bases: Seq<BaseItem>,
    affixes: Seq<Affix>,
    ilvl: u32,
    i: int,
)
    requires
        are_drops(items, g, after, bases, affixes, ilvl),
        0 < bases.len() <= u64::MAX,
        can_drop(bases, affixes, ilvl),
        0 <= i < items.len(),
    ensures
        falls(items[i], g.seed, bases, affixes, ilvl),
        after.seed == g.seed,
    decreases items.len(),
{
    let mid = choose|mid: RngState|
        are_drops(items.drop_last(), g, mid, bases, affixes, ilvl) && #[trigger] is_next_drop(
            items.last(),
            mid,
            after,
            bases,
            affixes,
            ilvl,
        );
    if items.len() > 1 {
        let k = if i < items.len() - 1 {
            i
        } else {
            0
        };
        law_every_drop_is_rolled(items.drop_last(), g, mid, bases, affixes, ilvl, k);
        assert(items.drop_last()[k] == items[k]);
    }
    assert(mid.seed == g.seed);
    let (rarity, h) = rolled_rarity(mid);
    assert(can_roll(bases, affixes, ilvl, rarity));
    lemma_items_keep_the_seed(h, bases, affixes, ilvl, rarity);
    if i == items.len() - 1 {
        assert(items[i] == items.last());
        assert(rolled_rarity(mid).0 == items[i].rarity);
    }
}

} // verus!
