//! Item upgrade economy — disenchant other drops into scrap, spend scrap to
//! bump an item's `upgrade_tier`. Upgrades amplify what a drop already rolled,
//! they don't change its identity. Drops always start at tier 0; upgrades are a
//! player action layered on top.

use vstd::prelude::*;

use crate::rules::item::Rarity;

verus! {

pub const MAX_UPGRADE_TIER: u8 = 5;

/// Scaling applied to every aggregated stat at `tier`, in hundredths.
/// Linear curve: +8% per tier, so a fully-upgraded item is 1.40× its
/// fresh-drop output. Tiers above `MAX_UPGRADE_TIER` count as that tier.
pub fn upgrade_scale(tier: u8) -> (percent: u32)
    ensures
        tier <= MAX_UPGRADE_TIER ==> percent == 100 + 8 * tier,
        tier > MAX_UPGRADE_TIER ==> percent == 140,
{
    let steps: u32 = if tier < MAX_UPGRADE_TIER { tier as u32 } else { MAX_UPGRADE_TIER as u32 };
    100 + 8 * steps
}

/// The scrap that an item of the given rarity is worth.
pub open spec fn scrap_value(rarity: Rarity) -> int {
    match rarity {
        Rarity::Basic => 1,
        Rarity::Common => 3,
        Rarity::Rare => 10,
        Rarity::Epic => 30,
        Rarity::Legendary => 100,
    }
}

/// Scrap recovered when disenchanting an item of this rarity. Does **not**
/// refund any scrap already spent on upgrades — players learn not to
/// over-invest in items they don't plan to keep.
pub fn disenchant_value(rarity: Rarity) -> (scrap: u32)
    ensures
        scrap == scrap_value(rarity),
{
    match rarity {
        Rarity::Basic => 1,
        Rarity::Common => 3,
        Rarity::Rare => 10,
        Rarity::Epic => 30,
        Rarity::Legendary => 100,
    }
}

/// The scrap for one step up from a tier that is not the last.
pub open spec fn step_cost(tier: int) -> int {
    if tier == 0 {
        5
    } else if tier == 1 {
        15
    } else if tier == 2 {
        40
    } else if tier == 3 {
        100
    } else {
        250
    }
}

/// The scrap for all steps from one tier to another.
pub open spec fn path_cost(from: int, to: int) -> int
    decreases to - from,
{
    if from >= to {
        0
    } else {
        path_cost(from, to - 1) + step_cost(to - 1)
    }
}

/// Scrap required to advance from `current_tier` to `current_tier + 1`.
/// Returns `None` when already at `MAX_UPGRADE_TIER` — no upgrade left.
///
/// Curve is geometric so the last tier feels earned: 5 / 15 / 40 / 100 / 250.
pub fn upgrade_cost(current_tier: u8) -> (cost: Option<u32>)
    ensures
        cost is None <==> current_tier >= MAX_UPGRADE_TIER,
        cost matches Some(scrap) ==> scrap == step_cost(current_tier as int),
{
    if current_tier == 0 {
        Some(5)
    } else if current_tier == 1 {
        Some(15)
    } else if current_tier == 2 {
        Some(40)
    } else if current_tier == 3 {
        Some(100)
    } else if current_tier == 4 {
        Some(250)
    } else {
        None
    }
}

/// Total scrap to upgrade from `from` to `to` (inclusive of `to`'s cost).
/// Returns `None` if either bound is out of range.
pub fn total_upgrade_cost(from: u8, to: u8) -> (cost: Option<u32>)
    ensures
        cost is None <==> to > MAX_UPGRADE_TIER || from > to,
        cost matches Some(scrap) ==> scrap == path_cost(from as int, to as int),
{
    if to > MAX_UPGRADE_TIER || from > to {
        return None;
    }
    let mut total: u32 = 0;
    for t in from..to
        invariant
            to <= MAX_UPGRADE_TIER,
            from <= to,
            total == path_cost(from as int, t as int),
            total <= 250 * (t - from),
    {
        match upgrade_cost(t) {
            Some(cost) => {
                total = total + cost;
            },
            None => {
                return None;
            },
        }
    }
    Some(total)
}

/// The rarer an item, the more scrap it is worth.
pub proof fn law_disenchant_is_monotonic(a: Rarity, b: Rarity)
    requires
        a.rank() < b.rank(),
    ensures
        scrap_value(a) < scrap_value(b),
{
}

/// Each step up costs more than the one before.
pub proof fn law_upgrade_steps_get_dearer(tier: int)
    requires
        0 <= tier,
        tier + 1 < MAX_UPGRADE_TIER,
    ensures
        step_cost(tier) < step_cost(tier + 1),
{
}

/// Upgrading in two goes costs what upgrading in one does.
pub proof fn law_upgrade_paths_add_up(from: int, via: int, to: int)
    requires
        from <= via <= to,
    ensures
        path_cost(from, to) == path_cost(from, via) + path_cost(via, to),
    decreases to - via,
{
    if via < to {
        law_upgrade_paths_add_up(from, via, to - 1);
    }
}

/// Upgrading an item all the way costs 410 scrap.
pub proof fn law_full_upgrade_costs_410()
    ensures
        path_cost(0, MAX_UPGRADE_TIER as int) == 410,
{
    reveal_with_fuel(path_cost, 6);
}

/// What everything costs, tier by tier and rarity by rarity.
pub proof fn law_prices(tier: int, rarity: Rarity)
    requires
        0 <= tier < 5,
    ensures
        step_cost(tier) == seq![5int, 15, 40, 100, 250][tier],
        scrap_value(rarity) == seq![1int, 3, 10, 30, 100][rarity.rank()],
{
}

/// A path costs the sum of its steps: it grows by the price of the last one, and the path
/// that goes nowhere is free.
pub proof fn law_paths_cost_their_steps(from: int, to: int)
    requires
        0 <= from <= to < 5,
    ensures
        path_cost(from, from) == 0,
        path_cost(from, to + 1) == path_cost(from, to) + seq![5int, 15, 40, 100, 250][to],
{
}

} // verus!
