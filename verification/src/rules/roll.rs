//! Roll pipeline: from a generator, the bases and the affix tables to a drop. Threads an
//! explicit generator so every drop is reproducible from a seed.

use vstd::prelude::*;

use crate::rng::{unit_of, Draw, RngState, SeededRng};
use crate::rules::affix::{Affix, AffixSlot, AffixTier, StatRoll};
use crate::rules::item::{BaseItem, ItemInstance, Rarity, Roll, RolledAffix};
use crate::text::{contains_string, lists};
use crate::weighted::{
    entry_of, law_every_number_is_owned, lemma_weight_grows, lemma_weight_of_push, owner,
    total_weight, weight_of_all, weight_of_first,
};

verus! {

#[derive(Debug, Clone, Copy, PartialEq, Eq, Structural)]
pub enum RollError {
    NoBases,
}

/// What may be rolled onto an item: affixes of one slot, for items of one category, of
/// tiers that the item level and the rarity allow, outside the groups that are taken.
pub struct Demand {
    pub slot: AffixSlot,
    pub category: Seq<char>,
    pub ilvl: u32,
    pub tier_floor: u8,
    pub taken: Seq<Seq<char>>,
}

impl Demand {
    /// The same demand with one more group taken.
    pub open spec fn without(self, group: Seq<char>) -> Demand {
        Demand { taken: self.taken.push(group), ..self }
    }

    /// Whether a tier may be rolled.
    pub open spec fn admits_tier(self, t: AffixTier) -> bool {
        t.ilvl_required <= self.ilvl && t.tier <= self.tier_floor
    }

    /// Whether an affix may be rolled.
    pub open spec fn admits(self, a: Affix) -> bool {
        &&& a.slot == self.slot
        &&& !self.taken.contains(a.group@)
        &&& lists(a.allowed_categories@, self.category)
        &&& exists|t: int| 0 <= t < a.tiers@.len() && self.admits_tier(#[trigger] a.tiers@[t])
    }

    /// The indices of the tiers among the first `n` that may be rolled.
    pub open spec fn tiers(self, all: Seq<AffixTier>, n: int) -> Seq<int>
        decreases n,
    {
        if n <= 0 {
            Seq::empty()
        } else if self.admits_tier(all[n - 1]) {
            self.tiers(all, n - 1).push(n - 1)
        } else {
            self.tiers(all, n - 1)
        }
    }

    /// The weights of the tiers among the first `n` that may be rolled.
    pub open spec fn tier_weights(self, all: Seq<AffixTier>, n: int) -> Seq<u32> {
        self.tiers(all, n).map_values(|t: int| all[t].weight)
    }

    /// The weight of an affix: that of its tiers that may be rolled.
    pub open spec fn weight(self, a: Affix) -> int {
        weight_of_all(self.tier_weights(a.tiers@, a.tiers@.len() as int))
    }

    /// The indices of the affixes among the first `n` that may be rolled.
    pub open spec fn affixes(self, all: Seq<Affix>, n: int) -> Seq<int>
        decreases n,
    {
        if n <= 0 {
            Seq::empty()
        } else if self.admits(all[n - 1]) {
            self.affixes(all, n - 1).push(n - 1)
        } else {
            self.affixes(all, n - 1)
        }
    }

    /// The weights of the affixes among the first `n` that may be rolled.
    pub open spec fn affix_weights(self, all: Seq<Affix>, n: int) -> Seq<u32> {
        self.affixes(all, n).map_values(|k: int| self.weight(all[k]) as u32)
    }

    /// What the affixes among the first `n` that may be rolled weigh together.
    pub open spec fn offer(self, all: Seq<Affix>, n: int) -> int
        decreases n,
    {
        if n <= 0 {
            0
        } else if self.admits(all[n - 1]) {
            self.offer(all, n - 1) + self.weight(all[n - 1])
        } else {
            self.offer(all, n - 1)
        }
    }

    /// Whether what may be rolled weighs no more than `u32` holds.
    pub open spec fn fits(self, all: Seq<Affix>) -> bool {
        self.offer(all, all.len() as int) <= u32::MAX
    }
}

/// What a fresh item of the given base, level and rarity may get in one of its slots.
pub open spec fn item_demand(base: BaseItem, ilvl: u32, rarity: Rarity, slot: AffixSlot) -> Demand {
    Demand {
        slot,
        category: base.category@,
        ilvl,
        tier_floor: rarity.floor(),
        taken: Seq::empty(),
    }
}

/// Whether the weights of what an item of the given base may get add up, in either slot,
/// to a number that `u32` holds.
pub open spec fn base_fits(base: BaseItem, all: Seq<Affix>, ilvl: u32, rarity: Rarity) -> bool {
    &&& item_demand(base, ilvl, rarity, AffixSlot::Prefix).fits(all)
    &&& item_demand(base, ilvl, rarity, AffixSlot::Suffix).fits(all)
}

/// Whether items of the given level and rarity can be rolled: whether the weights of what
/// they may get add up to numbers that `u32` holds. Basic items get nothing.
pub open spec fn can_roll(
    bases: Seq<BaseItem>,
    all: Seq<Affix>,
    ilvl: u32,
    rarity: Rarity,
) -> bool {
    rarity == Rarity::Basic || forall|b: int|
        0 <= b < bases.len() ==> base_fits(#[trigger] bases[b], all, ilvl, rarity)
}

/// Whether items of the given level can be rolled in every rarity.
pub open spec fn can_drop(bases: Seq<BaseItem>, all: Seq<Affix>, ilvl: u32) -> bool {
    forall|rarity: Rarity| #[trigger] can_roll(bases, all, ilvl, rarity)
}

/// Which of some weighted entries is picked, and the generator after that; nothing is
/// picked and nothing drawn where nothing has weight.
pub open spec fn weighted_pick(g: RngState, weights: Seq<u32>) -> (Option<int>, RngState) {
    let total = weight_of_all(weights);
    if total == 0 {
        (None, g)
    } else {
        let hi = (total - 1) as u32;
        (Some(owner(weights, g.range32(0, hi) as int)), g.after(Draw::Range32 { lo: 0, hi }))
    }
}

/// One affix that was rolled: which one, which of its tiers, and what was drawn for each
/// stat of that tier.
pub struct Picked {
    pub affix: int,
    pub tier: int,
    pub draws: Seq<u32>,
}

/// What is drawn for `n` stats, and the generator after that.
pub open spec fn stat_draws(g: RngState, n: nat) -> (Seq<u32>, RngState)
    decreases n,
{
    if n == 0 {
        (Seq::empty(), g)
    } else {
        let (before, g1) = stat_draws(g, (n - 1) as nat);
        (before.push(unit_of(g1)), g1.after(Draw::Word32))
    }
}

/// The affix that is rolled to meet a demand, and the generator after that.
pub open spec fn rolled_one(g: RngState, all: Seq<Affix>, d: Demand) -> (Option<Picked>, RngState) {
    let candidates = d.affixes(all, all.len() as int);
    match weighted_pick(g, d.affix_weights(all, all.len() as int)) {
        (None, g1) => (None, g1),
        (Some(c), g1) => {
            let affix = candidates[c];
            let tiers = all[affix].tiers@;
            match weighted_pick(g1, d.tier_weights(tiers, tiers.len() as int)) {
                (None, g2) => (None, g2),
                (Some(t), g2) => {
                    let tier = d.tiers(tiers, tiers.len() as int)[t];
                    let (draws, g3) = stat_draws(g2, tiers[tier].stats@.len());
                    (Some(Picked { affix, tier, draws }), g3)
                },
            }
        },
    }
}

/// The affixes that are rolled to meet a demand `count` times over, each of another
/// group, as long as there are any; with the demand as it is then and the generator
/// after that.
pub open spec fn rolled_set(
    g: RngState,
    all: Seq<Affix>,
    d: Demand,
    count: nat,
) -> (Seq<Picked>, Demand, RngState)
    decreases count,
{
    if count == 0 {
        (Seq::empty(), d, g)
    } else {
        match rolled_one(g, all, d) {
            (None, g1) => (Seq::empty(), d, g1),
            (Some(p), g1) => {
                let (rest, d2, g2) = rolled_set(
                    g1,
                    all,
                    d.without(all[p.affix].group@),
                    (count - 1) as nat,
                );
                (seq![p] + rest, d2, g2)
            },
        }
    }
}

/// How `total` affixes are split into prefixes and suffixes, not more than three of
/// either, and the generator after that.
pub open spec fn split(g: RngState, total: u64) -> ((u64, u64), RngState) {
    let lo = if total >= 3 {
        (total - 3) as u64
    } else {
        0
    };
    let hi = if total <= 3 {
        total
    } else {
        3
    };
    let n = g.range64(lo, hi);
    ((n, (total - n) as u64), g.after(Draw::Range64 { first: lo, last: hi }))
}

/// How many affixes an item gets in total, at random between `lo` and `hi`, split into
/// prefixes and suffixes; and the generator after that.
pub open spec fn counts_between(g: RngState, lo: u64, hi: u64) -> ((u64, u64), RngState) {
    split(g.after(Draw::Range64 { first: lo, last: hi }), g.range64(lo, hi))
}

/// How many prefixes and suffixes an item of the given rarity gets, and the generator
/// after that was drawn.
pub open spec fn counts(g: RngState, rarity: Rarity) -> ((u64, u64), RngState) {
    let even = Draw::Ratio { numerator: 1, denominator: 2 };
    match rarity {
        Rarity::Basic => ((0, 0), g),
        Rarity::Common => if g.ratio(1, 2) {
            ((1, 1), g.after(even))
        } else if g.after(even).ratio(1, 2) {
            ((1, 0), g.after(even).after(even))
        } else {
            ((0, 1), g.after(even).after(even))
        },
        Rarity::Rare => counts_between(g, 3, 4),
        Rarity::Epic => counts_between(g, 4, 5),
        Rarity::Legendary => counts_between(g, 5, 6),
    }
}

/// Everything that is decided about a drop.
pub struct RolledItem {
    pub base: int,
    pub seed: u64,
    pub prefixes: Seq<Picked>,
    pub suffixes: Seq<Picked>,
    pub rng: RngState,
}

/// The drop that is rolled from the given tables.
pub open spec fn rolled_item(
    g: RngState,
    bases: Seq<BaseItem>,
    all: Seq<Affix>,
    ilvl: u32,
    rarity: Rarity,
) -> RolledItem {
    let last = (bases.len() - 1) as u64;
    let base = g.range64(0, last) as int;
    let g1 = g.after(Draw::Range64 { first: 0, last });
    let seed = g1.word64();
    let ((n_prefix, n_suffix), g2) = counts(g1.after(Draw::Word64), rarity);
    let d = Demand {
        slot: AffixSlot::Prefix,
        category: bases[base].category@,
        ilvl,
        tier_floor: rarity.floor(),
        taken: Seq::empty(),
    };
    let (prefixes, d1, g3) = rolled_set(g2, all, d, n_prefix as nat);
    let (suffixes, d2, g4) = rolled_set(
        g3,
        all,
        Demand { slot: AffixSlot::Suffix, ..d1 },
        n_suffix as nat,
    );
    RolledItem { base, seed, prefixes, suffixes, rng: g4 }
}

/// Whether an affix on an item is the one that was picked from the table.
pub open spec fn is_picked(r: RolledAffix, all: Seq<Affix>, p: Picked) -> bool {
    let tier = all[p.affix].tiers@[p.tier];
    &&& r.affix_id@ == all[p.affix].id@
    &&& r.tier == tier.tier
    &&& r.rolls@ == rolls_of(tier.stats@, p.draws)
}

/// The rolls of the stats of a tier, given what was drawn for them.
pub open spec fn rolls_of(stats: Seq<StatRoll>, draws: Seq<u32>) -> Seq<Roll> {
    Seq::new(
        stats.len(),
        |i: int| Roll { min: stats[i].min, max: stats[i].max, draw: draws[i] },
    )
}

/// Whether the affixes on an item are those that were picked, in the same order.
pub open spec fn are_picked(r: Seq<RolledAffix>, all: Seq<Affix>, p: Seq<Picked>) -> bool {
    &&& r.len() == p.len()
    &&& forall|i: int| 0 <= i < r.len() ==> is_picked(#[trigger] r[i], all, p[i])
}

/// Whether an item is the drop that was rolled: fresh, with nothing attached.
pub open spec fn is_rolled(
    item: ItemInstance,
    bases: Seq<BaseItem>,
    all: Seq<Affix>,
    ilvl: u32,
    rarity: Rarity,
    r: RolledItem,
) -> bool {
    &&& item.base@ == bases[r.base].id@
    &&& item.ilvl == ilvl
    &&& item.rarity == rarity
    &&& item.seed == r.seed
    &&& are_picked(item.prefixes@, all, r.prefixes)
    &&& are_picked(item.suffixes@, all, r.suffixes)
    &&& item.upgrade_tier == 0
    &&& item.attached@.len() == 0
}

/// The tiers that may be rolled are among the first `n`, and their weight is not negative.
pub proof fn lemma_tier_weights(d: Demand, all: Seq<AffixTier>, n: int)
    requires
        0 <= n <= all.len(),
    ensures
        0 <= weight_of_all(d.tier_weights(all, n)),
        d.tiers(all, n).len() <= n,
        forall|i: int|
            0 <= i < d.tiers(all, n).len() ==> 0 <= #[trigger] d.tiers(all, n)[i] < n
                && d.admits_tier(all[d.tiers(all, n)[i]]),
    decreases n,
{
    if n > 0 {
        lemma_tier_weights(d, all, n - 1);
        if d.admits_tier(all[n - 1]) {
            lemma_weight_of_push(d.tier_weights(all, n - 1), all[n - 1].weight);
            assert(d.tier_weights(all, n) =~= d.tier_weights(all, n - 1).push(all[n - 1].weight));
        }
    }
}

/// More affixes never offer less, and none that may be rolled weighs more than the offer.
pub proof fn lemma_offer_grows(d: Demand, all: Seq<Affix>, m: int, n: int)
    requires
        0 <= m <= n <= all.len(),
    ensures
        0 <= d.offer(all, m) <= d.offer(all, n),
        forall|k: int|
            m <= k < n && d.admits(#[trigger] all[k]) ==> 0 <= d.weight(all[k]) <= d.offer(all, n),
    decreases n,
{
    if n > 0 {
        let a = all[n - 1];
        lemma_tier_weights(d, a.tiers@, a.tiers@.len() as int);
        if m < n {
            lemma_offer_grows(d, all, m, n - 1);
        } else {
            lemma_offer_grows(d, all, m - 1, n - 1);
        }
    }
}

/// The affixes that may be rolled weigh what is on offer.
pub proof fn lemma_affix_weights(d: Demand, all: Seq<Affix>, n: int)
    requires
        0 <= n <= all.len(),
        d.fits(all),
    ensures
        0 <= weight_of_all(d.affix_weights(all, n)) == d.offer(all, n) <= u32::MAX,
        d.affixes(all, n).len() <= n,
        forall|i: int|
            0 <= i < d.affixes(all, n).len() ==> 0 <= #[trigger] d.affixes(all, n)[i] < n
                && d.admits(all[d.affixes(all, n)[i]]),
    decreases n,
{
    lemma_offer_grows(d, all, n, all.len() as int);
    if n > 0 {
        lemma_affix_weights(d, all, n - 1);
        lemma_offer_grows(d, all, n - 1, n);
        let a = all[n - 1];
        if d.admits(a) {
            let w = d.weight(a) as u32;
            lemma_weight_of_push(d.affix_weights(all, n - 1), w);
            assert(d.affix_weights(all, n) =~= d.affix_weights(all, n - 1).push(w));
        }
    }
}

/// The tiers that may be rolled do not depend on the slot or the groups that are taken.
proof fn lemma_same_tiers(d: Demand, e: Demand, all: Seq<AffixTier>, n: int)
    requires
        d.ilvl == e.ilvl,
        d.tier_floor == e.tier_floor,
        0 <= n <= all.len(),
    ensures
        d.tiers(all, n) == e.tiers(all, n),
    decreases n,
{
    if n > 0 {
        lemma_same_tiers(d, e, all, n - 1);
    }
}

/// Where more groups are taken, no more is on offer.
pub proof fn lemma_offer_shrinks(d: Demand, e: Demand, all: Seq<Affix>, n: int)
    requires
        e == (Demand { taken: e.taken, ..d }),
        forall|group: Seq<char>| #[trigger] d.taken.contains(group) ==> e.taken.contains(group),
        0 <= n <= all.len(),
    ensures
        0 <= e.offer(all, n) <= d.offer(all, n),
    decreases n,
{
    if n > 0 {
        let a = all[n - 1];
        let m = a.tiers@.len() as int;
        lemma_offer_shrinks(d, e, all, n - 1);
        lemma_same_tiers(d, e, a.tiers@, m);
        lemma_tier_weights(d, a.tiers@, m);
        if e.admits(a) {
            let t = choose|t: int| 0 <= t < m && e.admits_tier(#[trigger] a.tiers@[t]);
            assert(d.admits_tier(a.tiers@[t]));
            assert(d.admits(a));
        }
    }
}

/// A demand still fits when one more group is taken.
pub proof fn lemma_still_fits(d: Demand, all: Seq<Affix>, group: Seq<char>)
    requires
        d.fits(all),
    ensures
        d.without(group).fits(all),
{
    let e = d.without(group);
    assert forall|g: Seq<char>| #[trigger] d.taken.contains(g) implies e.taken.contains(g) by {
        let i = choose|i: int| 0 <= i < d.taken.len() && d.taken[i] == g;
        assert(e.taken[i] == g);
    }
    lemma_offer_shrinks(d, e, all, all.len() as int);
}

/// A weighted pick is one of the entries, and one that has weight.
pub proof fn lemma_weighted_pick(g: RngState, weights: Seq<u32>)
    requires
        0 <= weight_of_all(weights) <= u32::MAX,
    ensures
        weighted_pick(g, weights).0 matches Some(i) ==> 0 <= i < weights.len() && weights[i] > 0,
        weighted_pick(g, weights).0 is None <==> weight_of_all(weights) == 0,
{
    let total = weight_of_all(weights);
    if total != 0 {
        law_every_number_is_owned(weights, g.range32(0, (total - 1) as u32) as int);
    }
}

/// Picks one of some weighted entries.
fn pick_weighted(rng: &mut SeededRng, weights: &Vec<u32>) -> (pick: Option<usize>)
    requires
        weight_of_all(weights@) <= u32::MAX,
    ensures
        ({
            let (i, g) = weighted_pick(old(rng)@, weights@);
            &&& final(rng)@ == g
            &&& match i {
                None => pick is None,
                Some(i) => pick == Some(i as usize) && 0 <= i < weights@.len(),
            }
        }),
{
    proof {
        lemma_weight_grows(weights@, 0, weights@.len() as int);
        lemma_weighted_pick(rng@, weights@);
    }
    let total: u64 = total_weight(weights);
    if total == 0 {
        return None;
    }
    let pick: u32 = rng.range_u32(0, (total - 1) as u32);
    Some(entry_of(weights, pick as u64))
}

fn is_tier_eligible(t: &AffixTier, ilvl: u32, tier_floor: u8, d: Ghost<Demand>) -> (r: bool)
    requires
        d@.ilvl == ilvl,
        d@.tier_floor == tier_floor,
    ensures
        r == d@.admits_tier(*t),
{
    t.ilvl_required <= ilvl && t.tier <= tier_floor
}

/// The tiers of an affix that may be rolled, by index, and their weights.
fn eligible_tiers(affix: &Affix, ilvl: u32, tier_floor: u8, d: Ghost<Demand>) -> (r: (
    Vec<usize>,
    Vec<u32>,
))
    requires
        d@.ilvl == ilvl,
        d@.tier_floor == tier_floor,
    ensures
        r.0@.map_values(|t: usize| t as int) == d@.tiers(affix.tiers@, affix.tiers@.len() as int),
        r.1@ == d@.tier_weights(affix.tiers@, affix.tiers@.len() as int),
{
    let mut tiers: Vec<usize> = Vec::new();
    let mut weights: Vec<u32> = Vec::new();
    let ghost all = affix.tiers@;
    assert(tiers@.map_values(|t: usize| t as int) =~= d@.tiers(all, 0));
    assert(weights@ =~= d@.tier_weights(all, 0));
    for i in 0..affix.tiers.len()
        invariant
            all == affix.tiers@,
            d@.ilvl == ilvl,
            d@.tier_floor == tier_floor,
            tiers@.map_values(|t: usize| t as int) == d@.tiers(all, i as int),
            weights@ == d@.tier_weights(all, i as int),
    {
        let ghost before = tiers@;
        if is_tier_eligible(&affix.tiers[i], ilvl, tier_floor, d) {
            tiers.push(i);
            weights.push(affix.tiers[i].weight);
            assert(tiers@.map_values(|t: usize| t as int) =~= before.map_values(
                |t: usize| t as int,
            ).push(i as int));
        }
        assert(weights@ =~= d@.tier_weights(all, i + 1));
    }
    (tiers, weights)
}

/// Whether an affix may be rolled.
fn is_affix_eligible(
    affix: &Affix,
    base: &BaseItem,
    ilvl: u32,
    tier_floor: u8,
    slot: AffixSlot,
    taken_groups: &Vec<String>,
    d: Ghost<Demand>,
) -> (r: bool)
    requires
        d@.slot == slot,
        d@.category == base.category@,
        d@.ilvl == ilvl,
        d@.tier_floor == tier_floor,
        d@.taken == crate::text::texts(taken_groups@),
    ensures
        r == d@.admits(*affix),
{
    if affix.slot != slot {
        return false;
    }
    if contains_string(taken_groups, &affix.group) {
        proof {
            let i = choose|i: int|
                0 <= i < taken_groups@.len() && (#[trigger] taken_groups@[i])@ == affix.group@;
            assert(d@.taken[i] == affix.group@);
        }
        return false;
    }
    assert(!d@.taken.contains(affix.group@)) by {
        if d@.taken.contains(affix.group@) {
            let i = choose|i: int| 0 <= i < d@.taken.len() && d@.taken[i] == affix.group@;
            assert(taken_groups@[i]@ == affix.group@);
        }
    }
    if !contains_string(&affix.allowed_categories, &base.category) {
        return false;
    }
    for t in 0..affix.tiers.len()
        invariant
            d@.ilvl == ilvl,
            d@.tier_floor == tier_floor,
            affix.slot == d@.slot,
            !d@.taken.contains(affix.group@),
            lists(affix.allowed_categories@, d@.category),
            forall|k: int| 0 <= k < t ==> !d@.admits_tier(#[trigger] affix.tiers@[k]),
    {
        if is_tier_eligible(&affix.tiers[t], ilvl, tier_floor, d) {
            return true;
        }
    }
    false
}

/// Draws the rolls of the stats of a tier.
fn roll_stats(rng: &mut SeededRng, stats: &Vec<StatRoll>) -> (rolls: Vec<Roll>)
    ensures
        ({
            let (draws, g) = stat_draws(old(rng)@, stats@.len());
            rolls@ == rolls_of(stats@, draws) && final(rng)@ == g && draws.len() == stats@.len()
        }),
{
    let ghost start = rng@;
    let mut rolls: Vec<Roll> = Vec::new();
    for i in 0..stats.len()
        invariant
            rolls@.len() == i,
            rng@ == stat_draws(start, i as nat).1,
            stat_draws(start, i as nat).0.len() == i,
            forall|k: int|
                0 <= k < i ==> #[trigger] rolls@[k] == (Roll {
                    min: stats@[k].min,
                    max: stats@[k].max,
                    draw: stat_draws(start, i as nat).0[k],
                }),
    {
        let draw: u32 = rng.unit();
        rolls.push(Roll { min: stats[i].min, max: stats[i].max, draw });
    }
    assert(rolls@ =~= rolls_of(stats@, stat_draws(start, stats@.len()).0));
    rolls
}

/// An affix that was rolled, with the group that it takes.
struct PickedAffix {
    group: String,
    rolled: RolledAffix,
}

fn roll_one_affix(
    rng: &mut SeededRng,
    affixes: &[Affix],
    base: &BaseItem,
    ilvl: u32,
    tier_floor: u8,
    slot: AffixSlot,
    taken_groups: &Vec<String>,
    d: Ghost<Demand>,
) -> (rolled: Option<PickedAffix>)
    requires
        d@.fits(affixes@),
        d@.slot == slot,
        d@.category == base.category@,
        d@.ilvl == ilvl,
        d@.tier_floor == tier_floor,
        d@.taken == crate::text::texts(taken_groups@),
    ensures
        ({
            let (p, g) = rolled_one(old(rng)@, affixes@, d@);
            &&& final(rng)@ == g
            &&& match p {
                None => rolled is None,
                Some(p) => rolled matches Some(r) && is_picked(r.rolled, affixes@, p)
                    && r.group@ == affixes@[p.affix].group@,
            }
        }),
{
    let ghost all = affixes@;
    let mut candidates: Vec<usize> = Vec::new();
    let mut weights: Vec<u32> = Vec::new();
    assert(candidates@.map_values(|k: usize| k as int) =~= d@.affixes(all, 0));
    assert(weights@ =~= d@.affix_weights(all, 0));
    for i in 0..affixes.len()
        invariant
            all == affixes@,
            d@.fits(all),
            d@.slot == slot,
            d@.category == base.category@,
            d@.ilvl == ilvl,
            d@.tier_floor == tier_floor,
            d@.taken == crate::text::texts(taken_groups@),
            candidates@.map_values(|k: usize| k as int) == d@.affixes(all, i as int),
            weights@ == d@.affix_weights(all, i as int),
    {
        let ghost before = candidates@;
        let affix = &affixes[i];
        if is_affix_eligible(affix, base, ilvl, tier_floor, slot, taken_groups, d) {
            let (_, tier_weights) = eligible_tiers(affix, ilvl, tier_floor, d);
            proof {
                lemma_offer_grows(d@, all, i as int, all.len() as int);
            }
            let weight: u64 = total_weight(&tier_weights);
            candidates.push(i);
            weights.push(weight as u32);
            assert(candidates@.map_values(|k: usize| k as int) =~= before.map_values(
                |k: usize| k as int,
            ).push(i as int));
        }
        assert(weights@ =~= d@.affix_weights(all, i + 1));
    }
    proof {
        lemma_affix_weights(d@, all, all.len() as int);
        lemma_weighted_pick(rng@, weights@);
    }
    let c: usize = match pick_weighted(rng, &weights) {
        None => {
            return None;
        },
        Some(c) => c,
    };
    assert(candidates@.map_values(|k: usize| k as int)[c as int] == candidates@[c as int]);
    let affix = &affixes[candidates[c]];
    let (tiers, tier_weights) = eligible_tiers(affix, ilvl, tier_floor, d);
    proof {
        lemma_tier_weights(d@, affix.tiers@, affix.tiers@.len() as int);
        lemma_offer_grows(d@, all, 0, all.len() as int);
    }
    let t: usize = match pick_weighted(rng, &tier_weights) {
        None => {
            return None;
        },
        Some(t) => t,
    };
    assert(tiers@.map_values(|k: usize| k as int)[t as int] == tiers@[t as int]);
    let tier = &affix.tiers[tiers[t]];
    let rolls = roll_stats(rng, &tier.stats);
    Some(
        PickedAffix {
            group: affix.group.clone(),
            rolled: RolledAffix { affix_id: affix.id.clone(), tier: tier.tier, rolls },
        },
    )
}

/// Rolls up to `count` affixes, each of another group.
fn roll_affix_set(
    rng: &mut SeededRng,
    affixes: &[Affix],
    base: &BaseItem,
    ilvl: u32,
    tier_floor: u8,
    slot: AffixSlot,
    count: u64,
    taken_groups: &mut Vec<String>,
    d: Ghost<Demand>,
) -> (out: Vec<RolledAffix>)
    requires
        count > 0 ==> d@.fits(affixes@),
        d@.slot == slot,
        d@.category == base.category@,
        d@.ilvl == ilvl,
        d@.tier_floor == tier_floor,
        d@.taken == crate::text::texts(old(taken_groups)@),
    ensures
        ({
            let (p, d1, g) = rolled_set(old(rng)@, affixes@, d@, count as nat);
            &&& final(rng)@ == g
            &&& are_picked(out@, affixes@, p)
            &&& d1.taken == crate::text::texts(final(taken_groups)@)
            &&& d1 == (Demand { taken: d1.taken, ..d@ })
        }),
{
    let mut out: Vec<RolledAffix> = Vec::new();
    let ghost all = affixes@;
    let ghost start = rng@;
    let ghost mut picked: Seq<Picked> = Seq::empty();
    let ghost mut now: Demand = d@;
    let mut left: u64 = count;
    proof {
        let whole = rolled_set(start, all, d@, count as nat);
        assert(picked + rolled_set(rng@, all, now, left as nat).0 =~= whole.0);
    }
    while left > 0
        invariant
            all == affixes@,
            start == old(rng)@,
            left > 0 ==> now.fits(all),
            now == (Demand { taken: now.taken, ..d@ }),
            now.taken == crate::text::texts(taken_groups@),
            d@.slot == slot,
            d@.category == base.category@,
            d@.ilvl == ilvl,
            d@.tier_floor == tier_floor,
            are_picked(out@, all, picked),
            picked + rolled_set(rng@, all, now, left as nat).0 == rolled_set(
                start,
                all,
                d@,
                count as nat,
            ).0,
            rolled_set(rng@, all, now, left as nat).1 == rolled_set(
                start,
                all,
                d@,
                count as nat,
            ).1,
            rolled_set(rng@, all, now, left as nat).2 == rolled_set(
                start,
                all,
                d@,
                count as nat,
            ).2,
        decreases left,
    {
        let ghost g = rng@;
        let rolled = roll_one_affix(
            rng,
            affixes,
            base,
            ilvl,
            tier_floor,
            slot,
            taken_groups,
            Ghost(now),
        );
        match rolled {
            None => {
                proof {
                    let end = rolled_set(g, all, now, left as nat);
                    assert(end.0 == Seq::<Picked>::empty());
                    assert(picked + end.0 =~= picked);
                }
                return out;
            },
            Some(r) => {
                proof {
                    let p = rolled_one(g, all, now).0->0;
                    let before = taken_groups@;
                    let rest = rolled_set(rng@, all, now.without(r.group@), (left - 1) as nat).0;
                    assert(crate::text::texts(before.push(r.group)) =~= crate::text::texts(
                        before,
                    ).push(r.group@));
                    assert(picked + (seq![p] + rest) =~= picked.push(p) + rest);
                    picked = picked.push(p);
                    lemma_still_fits(now, all, r.group@);
                    now = now.without(r.group@);
                }
                taken_groups.push(r.group);
                out.push(r.rolled);
                left = left - 1;
            },
        }
    }
    assert(picked + Seq::<Picked>::empty() =~= picked);
    out
}

/// Splits a number of affixes into prefixes and suffixes, at most three of either.
fn split_total(rng: &mut SeededRng, total: u64) -> (r: (u64, u64))
    requires
        total <= 6,
    ensures
        (r, final(rng)@) == split(old(rng)@, total),
{
    let lo: u64 = if total >= 3 { total - 3 } else { 0 };
    let hi: u64 = if total <= 3 { total } else { 3 };
    let n_pre: u64 = rng.range_u64(lo, hi);
    (n_pre, total - n_pre)
}

/// Draws how many prefixes and suffixes an item gets.
fn affix_counts(rng: &mut SeededRng, rarity: Rarity) -> (r: (u64, u64))
    ensures
        (r, final(rng)@) == counts(old(rng)@, rarity),
{
    match rarity {
        Rarity::Basic => (0, 0),
        Rarity::Common => {
            if rng.ratio(1, 2) {
                (1, 1)
            } else if rng.ratio(1, 2) {
                (1, 0)
            } else {
                (0, 1)
            }
        },
        Rarity::Rare => {
            let total: u64 = rng.range_u64(3, 4);
            split_total(rng, total)
        },
        Rarity::Epic => {
            let total: u64 = rng.range_u64(4, 5);
            split_total(rng, total)
        },
        Rarity::Legendary => {
            let total: u64 = rng.range_u64(5, 6);
            split_total(rng, total)
        },
    }
}

/// Rolls a drop: one of the bases, a seed of its own, and as many affixes as its rarity
/// calls for and the table offers.
pub fn roll_item(
    rng: &mut SeededRng,
    bases: &[BaseItem],
    affixes: &[Affix],
    ilvl: u32,
    rarity: Rarity,
) -> (r: Result<ItemInstance, RollError>)
    requires
        can_roll(bases@, affixes@, ilvl, rarity),
    ensures
        match r {
            Err(e) => e == RollError::NoBases && bases@.len() == 0 && final(rng)@ == old(rng)@,
            Ok(item) => {
                let rolled = rolled_item(old(rng)@, bases@, affixes@, ilvl, rarity);
                &&& bases@.len() > 0
                &&& is_rolled(item, bases@, affixes@, ilvl, rarity, rolled)
                &&& final(rng)@ == rolled.rng
            },
        },
{
    if bases.len() == 0 {
        return Err(RollError::NoBases);
    }
    let ghost start = rng@;
    let base = &bases[rng.range_u64(0, bases.len() as u64 - 1) as usize];
    let seed: u64 = rng.word_u64();
    let (n_prefix, n_suffix) = affix_counts(rng, rarity);
    let tier_floor: u8 = rarity.tier_floor();
    let mut taken_groups: Vec<String> = Vec::new();
    let ghost d = item_demand(*base, ilvl, rarity, AffixSlot::Prefix);
    assert(crate::text::texts(taken_groups@) =~= Seq::<Seq<char>>::empty());
    let ghost g2 = rng@;
    let prefixes = roll_affix_set(
        rng,
        affixes,
        base,
        ilvl,
        tier_floor,
        AffixSlot::Prefix,
        n_prefix,
        &mut taken_groups,
        Ghost(d),
    );
    let ghost d1 = rolled_set(g2, affixes@, d, n_prefix as nat).1;
    proof {
        if rarity != Rarity::Basic {
            lemma_offer_shrinks(
                item_demand(*base, ilvl, rarity, AffixSlot::Suffix),
                Demand { slot: AffixSlot::Suffix, ..d1 },
                affixes@,
                affixes@.len() as int,
            );
        }
    }
    let suffixes = roll_affix_set(
        rng,
        affixes,
        base,
        ilvl,
        tier_floor,
        AffixSlot::Suffix,
        n_suffix,
        &mut taken_groups,
        Ghost(Demand { slot: AffixSlot::Suffix, ..d1 }),
    );
    Ok(
        ItemInstance {
            base: base.id.clone(),
            ilvl,
            rarity,
            seed,
            prefixes,
            suffixes,
            upgrade_tier: 0,
            attached: Vec::new(),
        },
    )
}

/// Adds the weight of the tiers of an affix that may be rolled to a total, as far as `u32`
/// goes.
fn add_weight(total: u64, affix: &Affix, ilvl: u32, tier_floor: u8, d: Ghost<Demand>) -> (sum:
    Option<u64>)
    requires
        total <= u32::MAX,
        d@.ilvl == ilvl,
        d@.tier_floor == tier_floor,
    ensures
        match sum {
            Some(sum) => sum == total + d@.weight(*affix) && sum <= u32::MAX,
            None => total + d@.weight(*affix) > u32::MAX,
        },
{
    let (_, weights) = eligible_tiers(affix, ilvl, tier_floor, d);
    let mut sum: u64 = total;
    for i in 0..weights.len()
        invariant
            weights@ == d@.tier_weights(affix.tiers@, affix.tiers@.len() as int),
            sum <= u32::MAX,
            sum == total + weight_of_first(weights@, i as int),
    {
        sum = sum + weights[i] as u64;
        if sum > u32::MAX as u64 {
            proof {
                lemma_weight_grows(weights@, i + 1, weights@.len() as int);
            }
            return None;
        }
    }
    Some(sum)
}

/// Whether the weights of what an item may get in one of its slots fit.
fn slot_fits(affixes: &[Affix], base: &BaseItem, ilvl: u32, rarity: Rarity, slot: AffixSlot) -> (r:
    bool)
    ensures
        r == item_demand(*base, ilvl, rarity, slot).fits(affixes@),
{
    let ghost d = item_demand(*base, ilvl, rarity, slot);
    let tier_floor: u8 = rarity.tier_floor();
    let none: Vec<String> = Vec::new();
    assert(crate::text::texts(none@) =~= Seq::<Seq<char>>::empty());
    let mut total: u64 = 0;
    for i in 0..affixes.len()
        invariant
            d == item_demand(*base, ilvl, rarity, slot),
            tier_floor == rarity.floor(),
            d.taken == crate::text::texts(none@),
            total <= u32::MAX,
            total == d.offer(affixes@, i as int),
    {
        let affix = &affixes[i];
        if is_affix_eligible(affix, base, ilvl, tier_floor, slot, &none, Ghost(d)) {
            match add_weight(total, affix, ilvl, tier_floor, Ghost(d)) {
                Some(sum) => {
                    total = sum;
                },
                None => {
                    proof {
                        lemma_offer_grows(d, affixes@, i + 1, affixes@.len() as int);
                    }
                    return false;
                },
            }
        }
    }
    true
}

/// Whether items of the given level and rarity can be rolled from these tables.
pub fn rolls_fit(bases: &[BaseItem], affixes: &[Affix], ilvl: u32, rarity: Rarity) -> (r: bool)
    ensures
        r == can_roll(bases@, affixes@, ilvl, rarity),
{
    if rarity == Rarity::Basic {
        return true;
    }
    for b in 0..bases.len()
        invariant
            rarity != Rarity::Basic,
            forall|k: int|
                0 <= k < b ==> base_fits(#[trigger] bases@[k], affixes@, ilvl, rarity),
    {
        if !slot_fits(affixes, &bases[b], ilvl, rarity, AffixSlot::Prefix) || !slot_fits(
            affixes,
            &bases[b],
            ilvl,
            rarity,
            AffixSlot::Suffix,
        ) {
            assert(!base_fits(bases@[b as int], affixes@, ilvl, rarity));
            return false;
        }
    }
    true
}

/// Whether items of the given level can be rolled from these tables in every rarity.
pub fn drops_fit(bases: &[BaseItem], affixes: &[Affix], ilvl: u32) -> (r: bool)
    ensures
        r == can_drop(bases@, affixes@, ilvl),
{
    let r = rolls_fit(bases, affixes, ilvl, Rarity::Common)
        && rolls_fit(bases, affixes, ilvl, Rarity::Rare)
        && rolls_fit(bases, affixes, ilvl, Rarity::Epic)
        && rolls_fit(bases, affixes, ilvl, Rarity::Legendary);
    proof {
        if r {
            assert forall|rarity: Rarity| #[trigger] can_roll(
                bases@,
                affixes@,
                ilvl,
                rarity,
            ) by {
                match rarity {
                    Rarity::Basic => {},
                    Rarity::Common => {},
                    Rarity::Rare => {},
                    Rarity::Epic => {},
                    Rarity::Legendary => {},
                }
            }
        }
    }
    r
}

} // verus!
