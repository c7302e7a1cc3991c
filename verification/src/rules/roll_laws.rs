//! What holds of every rolled item.

use vstd::prelude::*;

use crate::rng::{answer_ratio, answer_word64, Draw, RngState};
use crate::rules::affix::{Affix, AffixSlot, AffixTier};
use crate::rules::item::{BaseItem, ItemInstance, Rarity, Roll, RolledAffix};
use crate::rules::roll::{
    are_picked, base_fits, can_roll, counts, is_picked, is_rolled, item_demand,
    lemma_affix_weights, lemma_offer_grows, lemma_offer_shrinks, lemma_still_fits,
    lemma_tier_weights, lemma_weighted_pick, rolled_item, rolled_one, rolled_set, stat_draws,
    weighted_pick, Demand, Picked, RolledItem,
};
use crate::text::lists;
use crate::weighted::{
    law_every_number_is_owned, lemma_weight_of_prefix, lemma_weight_of_push, owner, weight_of_all,
    weight_of_first,
};

verus! {

/// Whether a picked affix is one that the demand admits: of the table, of the right
/// slot, for the category, and of a tier that item level and rarity allow; with one
/// draw from the unit interval for each stat of the tier.
pub open spec fn meets(p: Picked, all: Seq<Affix>, d: Demand) -> bool {
    &&& 0 <= p.affix < all.len()
    &&& all[p.affix].slot == d.slot
    &&& lists(all[p.affix].allowed_categories@, d.category)
    &&& 0 <= p.tier < all[p.affix].tiers@.len()
    &&& d.admits_tier(all[p.affix].tiers@[p.tier])
    &&& p.draws.len() == all[p.affix].tiers@[p.tier].stats@.len()
    &&& forall|i: int| 0 <= i < p.draws.len() ==> (#[trigger] p.draws[i]) < 0x100_0000
}

/// The group of a picked affix.
pub open spec fn group_of(p: Picked, all: Seq<Affix>) -> Seq<char> {
    all[p.affix].group@
}

/// The groups of some picked affixes.
pub open spec fn groups_of(p: Seq<Picked>, all: Seq<Affix>) -> Seq<Seq<char>> {
    p.map_values(|q: Picked| group_of(q, all))
}

proof fn lemma_stat_draws(g: RngState, n: nat)
    ensures
        stat_draws(g, n).0.len() == n,
        forall|i: int| 0 <= i < n ==> (#[trigger] stat_draws(g, n).0[i]) < 0x100_0000,
    decreases n,
{
    if n > 0 {
        lemma_stat_draws(g, (n - 1) as nat);
        let g1 = stat_draws(g, (n - 1) as nat).1;
        let word = g1.word32();
        assert(word >> 8 < 0x100_0000u32) by (bit_vector);
    }
}

/// What is rolled to meet a demand meets it, and takes a group that was free.
proof fn lemma_rolled_one(g: RngState, all: Seq<Affix>, d: Demand)
    requires
        d.fits(all),
    ensures
        rolled_one(g, all, d).0 matches Some(p) ==> meets(p, all, d) && !d.taken.contains(
            group_of(p, all),
        ),
{
    let n = all.len() as int;
    lemma_affix_weights(d, all, n);
    let weights = d.affix_weights(all, n);
    lemma_weighted_pick(g, weights);
    if let (Some(c), g1) = weighted_pick(g, weights) {
        let affix = d.affixes(all, n)[c];
        let tiers = all[affix].tiers@;
        let m = tiers.len() as int;
        lemma_tier_weights(d, tiers, m);
        lemma_offer_grows(d, all, 0, n);
        lemma_weighted_pick(g1, d.tier_weights(tiers, m));
        if let (Some(t), g2) = weighted_pick(g1, d.tier_weights(tiers, m)) {
            let tier = d.tiers(tiers, m)[t];
            lemma_stat_draws(g2, tiers[tier].stats@.len());
        }
    }
}

/// What is rolled to meet a demand several times over meets it each time, takes groups
/// that were free and none of them twice, and is no more than was asked for.
proof fn lemma_rolled_set(g: RngState, all: Seq<Affix>, d: Demand, count: nat)
    requires
        count > 0 ==> d.fits(all),
    ensures
        ({
            let (p, d1, g1) = rolled_set(g, all, d, count);
            &&& p.len() <= count
            &&& forall|i: int| 0 <= i < p.len() ==> meets(#[trigger] p[i], all, d)
            &&& d1 == (Demand { taken: d.taken + groups_of(p, all), ..d })
            &&& forall|i: int|
                0 <= i < p.len() ==> !d.taken.contains(#[trigger] groups_of(p, all)[i])
            &&& groups_of(p, all).no_duplicates()
        }),
    decreases count,
{
    let (p, d1, g1) = rolled_set(g, all, d, count);
    if count == 0 {
        assert(d.taken + groups_of(p, all) =~= d.taken);
    } else {
        lemma_rolled_one(g, all, d);
        match rolled_one(g, all, d) {
            (None, g1) => {
                assert(d.taken + groups_of(p, all) =~= d.taken);
            },
            (Some(q), g1) => {
                let e = d.without(group_of(q, all));
                lemma_still_fits(d, all, group_of(q, all));
                lemma_rolled_set(g1, all, e, (count - 1) as nat);
                let rest = rolled_set(g1, all, e, (count - 1) as nat).0;
                assert(p == seq![q] + rest);
                assert(d.taken + groups_of(p, all) =~= e.taken + groups_of(rest, all));
                assert forall|i: int| 0 <= i < p.len() implies meets(#[trigger] p[i], all, d) by {
                    if i > 0 {
                        assert(meets(rest[i - 1], all, e));
                    }
                }
                assert forall|i: int| 0 <= i < p.len() implies !d.taken.contains(
                    #[trigger] groups_of(p, all)[i],
                ) && (i > 0 ==> groups_of(p, all)[i] != group_of(q, all)) by {
                    if i > 0 {
                        let group = groups_of(rest, all)[i - 1];
                        assert(group == groups_of(p, all)[i]);
                        assert(!e.taken.contains(group));
                        assert(e.taken[e.taken.len() - 1] == group_of(q, all));
                        if d.taken.contains(group) {
                            let j = choose|j: int| 0 <= j < d.taken.len() && d.taken[j] == group;
                            assert(e.taken[j] == group);
                        }
                    }
                }
                assert forall|i: int, j: int|
                    0 <= i < p.len() && 0 <= j < p.len() && i != j implies groups_of(p, all)[i]
                    != groups_of(p, all)[j] by {
                    if i > 0 && j > 0 {
                        assert(groups_of(p, all)[i] == groups_of(rest, all)[i - 1]);
                        assert(groups_of(p, all)[j] == groups_of(rest, all)[j - 1]);
                    }
                }
            },
        }
    }
}

/// How many affixes a rarity calls for: none for basic items; one or two for common ones,
/// at most one of either kind; three or four, four or five, five or six for the rarer
/// ones, at most three of either kind.
pub proof fn law_affix_counts(g: RngState, rarity: Rarity)
    ensures
        ({
            let ((p, s), g1) = counts(g, rarity);
            &&& p <= 3
            &&& s <= 3
            &&& rarity == Rarity::Basic ==> p + s == 0
            &&& rarity == Rarity::Common ==> p <= 1 && s <= 1 && p + s >= 1
            &&& rarity == Rarity::Rare ==> 3 <= p + s <= 4
            &&& rarity == Rarity::Epic ==> 4 <= p + s <= 5
            &&& rarity == Rarity::Legendary ==> 5 <= p + s <= 6
        }),
{
}

/// The affixes of a rolled item: every prefix is a prefix and every suffix a suffix of the
/// table, made for the category of the base, of a tier that the item level and the
/// rarity allow; and no two of them, prefixes or suffixes, are of the same group.
pub proof fn law_rolled_affixes(
    g: RngState,
    bases: Seq<BaseItem>,
    all: Seq<Affix>,
    ilvl: u32,
    rarity: Rarity,
)
    requires
        0 < bases.len() <= u64::MAX,
        can_roll(bases, all, ilvl, rarity),
    ensures
        ({
            let r = rolled_item(g, bases, all, ilvl, rarity);
            &&& 0 <= r.base < bases.len()
            &&& forall|i: int|
                0 <= i < r.prefixes.len() ==> meets(
                    #[trigger] r.prefixes[i],
                    all,
                    item_demand(bases[r.base], ilvl, rarity, AffixSlot::Prefix),
                )
            &&& forall|i: int|
                0 <= i < r.suffixes.len() ==> meets(
                    #[trigger] r.suffixes[i],
                    all,
                    item_demand(bases[r.base], ilvl, rarity, AffixSlot::Suffix),
                )
            &&& (groups_of(r.prefixes, all) + groups_of(r.suffixes, all)).no_duplicates()
            &&& r.prefixes.len() <= 3
            &&& r.suffixes.len() <= 3
            &&& r.prefixes.len() + r.suffixes.len() <= most_affixes(rarity)
        }),
{
    let r = rolled_item(g, bases, all, ilvl, rarity);
    let last = (bases.len() - 1) as u64;
    let g1 = g.after(Draw::Range64 { first: 0, last });
    let ((n_prefix, n_suffix), g2) = counts(g1.after(Draw::Word64), rarity);
    law_affix_counts(g1.after(Draw::Word64), rarity);
    let d = item_demand(bases[r.base], ilvl, rarity, AffixSlot::Prefix);
    assert(rarity != Rarity::Basic ==> base_fits(bases[r.base], all, ilvl, rarity));
    lemma_rolled_set(g2, all, d, n_prefix as nat);
    let (prefixes, d1, g3) = rolled_set(g2, all, d, n_prefix as nat);
    let e = Demand { slot: AffixSlot::Suffix, ..d1 };
    let fresh = item_demand(bases[r.base], ilvl, rarity, AffixSlot::Suffix);
    lemma_offer_shrinks(fresh, e, all, all.len() as int);
    lemma_rolled_set(g3, all, e, n_suffix as nat);
    assert(r.prefixes == prefixes);
    let before = groups_of(r.prefixes, all);
    let after = groups_of(r.suffixes, all);
    assert(e.taken =~= before);
    assert forall|i: int| 0 <= i < r.suffixes.len() implies meets(
        #[trigger] r.suffixes[i],
        all,
        item_demand(bases[r.base], ilvl, rarity, AffixSlot::Suffix),
    ) by {
        assert(meets(r.suffixes[i], all, e));
    }
    assert forall|i: int, j: int|
        0 <= i < (before + after).len() && 0 <= j < (before + after).len() && i
            != j implies (before + after)[i] != (before + after)[j] by {
        let n = before.len();
        if i < n && j >= n {
            assert(!before.contains(after[j - n]));
        } else if j < n && i >= n {
            assert(!before.contains(after[i - n]));
        }
    }
}

/// The most affixes that an item of the given rarity gets.
pub open spec fn most_affixes(rarity: Rarity) -> int {
    match rarity {
        Rarity::Basic => 0,
        Rarity::Common => 2,
        Rarity::Rare => 4,
        Rarity::Epic => 5,
        Rarity::Legendary => 6,
    }
}

/// Basic items have no affixes.
pub proof fn law_basic_items_are_plain(
    item: ItemInstance,
    g: RngState,
    bases: Seq<BaseItem>,
    all: Seq<Affix>,
    ilvl: u32,
)
    requires
        0 < bases.len() <= u64::MAX,
        is_rolled(
            item,
            bases,
            all,
            ilvl,
            Rarity::Basic,
            rolled_item(g, bases, all, ilvl, Rarity::Basic),
        ),
    ensures
        item.prefixes@.len() == 0,
        item.suffixes@.len() == 0,
{
    law_rolled_affixes(g, bases, all, ilvl, Rarity::Basic);
}

/// Every affix of a legendary item is of the second tier or better.
pub proof fn law_legendary_tiers(
    item: ItemInstance,
    g: RngState,
    bases: Seq<BaseItem>,
    all: Seq<Affix>,
    ilvl: u32,
    i: int,
)
    requires
        0 < bases.len() <= u64::MAX,
        can_roll(bases, all, ilvl, Rarity::Legendary),
        is_rolled(
            item,
            bases,
            all,
            ilvl,
            Rarity::Legendary,
            rolled_item(g, bases, all, ilvl, Rarity::Legendary),
        ),
    ensures
        0 <= i < item.prefixes@.len() ==> item.prefixes@[i].tier <= 2,
        0 <= i < item.suffixes@.len() ==> item.suffixes@[i].tier <= 2,
{
    law_rolled_affixes(g, bases, all, ilvl, Rarity::Legendary);
}

/// Whether two lists of affixes read the same.
pub open spec fn same_affixes(a: Seq<RolledAffix>, b: Seq<RolledAffix>) -> bool {
    &&& a.len() == b.len()
    &&& forall|i: int|
        #![trigger a[i]]
        0 <= i < a.len() ==> a[i].affix_id@ == b[i].affix_id@ && a[i].tier == b[i].tier
            && a[i].rolls@ == b[i].rolls@
}

/// Whether two items read the same.
pub open spec fn same_item(a: ItemInstance, b: ItemInstance) -> bool {
    &&& a.base@ == b.base@
    &&& a.ilvl == b.ilvl
    &&& a.rarity == b.rarity
    &&& a.seed == b.seed
    &&& same_affixes(a.prefixes@, b.prefixes@)
    &&& same_affixes(a.suffixes@, b.suffixes@)
    &&& a.upgrade_tier == b.upgrade_tier
    &&& crate::text::texts(a.attached@) == crate::text::texts(b.attached@)
}

/// The same generator and the same tables give the same item.
pub proof fn law_rolls_are_deterministic(
    a: ItemInstance,
    b: ItemInstance,
    g: RngState,
    bases: Seq<BaseItem>,
    all: Seq<Affix>,
    ilvl: u32,
    rarity: Rarity,
)
    requires
        is_rolled(a, bases, all, ilvl, rarity, rolled_item(g, bases, all, ilvl, rarity)),
        is_rolled(b, bases, all, ilvl, rarity, rolled_item(g, bases, all, ilvl, rarity)),
    ensures
        same_item(a, b),
{
    let r = rolled_item(g, bases, all, ilvl, rarity);
    lemma_picked_same(a.prefixes@, b.prefixes@, all, r.prefixes);
    lemma_picked_same(a.suffixes@, b.suffixes@, all, r.suffixes);
    assert(crate::text::texts(a.attached@) =~= crate::text::texts(b.attached@));
}

/// Affixes that were picked the same way read the same.
proof fn lemma_picked_same(
    a: Seq<RolledAffix>,
    b: Seq<RolledAffix>,
    all: Seq<Affix>,
    p: Seq<Picked>,
)
    requires
        are_picked(a, all, p),
        are_picked(b, all, p),
    ensures
        same_affixes(a, b),
{
    assert forall|i: int| #![trigger a[i]] 0 <= i < a.len() implies a[i].affix_id@ == b[i].affix_id@
        && a[i].tier == b[i].tier && a[i].rolls@ == b[i].rolls@ by {
        assert(is_picked(a[i], all, p[i]));
        assert(is_picked(b[i], all, p[i]));
    }
}

/// What the tiers before the `n`-th weigh in a roll. A tier weighs nothing there unless the
/// item is of the level that it takes and of a rarity that rolls tiers so low.
pub open spec fn tiers_before(tiers: Seq<AffixTier>, ilvl: u32, worst: u8, n: int) -> int
    decreases n,
{
    if n <= 0 {
        0
    } else if tiers[n - 1].ilvl_required <= ilvl && tiers[n - 1].tier <= worst {
        tiers_before(tiers, ilvl, worst, n - 1) + tiers[n - 1].weight
    } else {
        tiers_before(tiers, ilvl, worst, n - 1)
    }
}

/// What the affixes before the `n`-th weigh in a roll. An affix weighs what its tiers do,
/// and nothing if it is for another slot or category, or if its group is taken.
pub open spec fn affixes_before(all: Seq<Affix>, d: Demand, n: int) -> int
    decreases n,
{
    if n <= 0 {
        0
    } else {
        let a = all[n - 1];
        affixes_before(all, d, n - 1) + if a.slot == d.slot && !d.taken.contains(a.group@) && (
        exists|c: int|
            0 <= c < a.allowed_categories@.len() && (#[trigger] a.allowed_categories@[c])@
                == d.category) {
            tiers_before(a.tiers@, d.ilvl, d.tier_floor, a.tiers@.len() as int)
        } else {
            0
        }
    }
}

/// What the candidates before one of them weigh is what the tiers before it in the table
/// do.
proof fn lemma_tiers_before(d: Demand, all: Seq<AffixTier>, n: int)
    requires
        0 <= n <= all.len(),
    ensures
        weight_of_all(d.tier_weights(all, n)) == tiers_before(all, d.ilvl, d.tier_floor, n),
        forall|i: int|
            0 <= i < d.tiers(all, n).len() ==> weight_of_first(d.tier_weights(all, n), i)
                == tiers_before(all, d.ilvl, d.tier_floor, #[trigger] d.tiers(all, n)[i]),
    decreases n,
{
    if n > 0 {
        lemma_tiers_before(d, all, n - 1);
        if d.admits_tier(all[n - 1]) {
            let before = d.tier_weights(all, n - 1);
            let after = d.tier_weights(all, n);
            lemma_weight_of_push(before, all[n - 1].weight);
            assert(after =~= before.push(all[n - 1].weight));
            assert forall|i: int| 0 <= i < d.tiers(all, n).len() implies weight_of_first(after, i)
                == tiers_before(all, d.ilvl, d.tier_floor, #[trigger] d.tiers(all, n)[i]) by {
                lemma_weight_of_prefix(after, before, i);
                if i < d.tiers(all, n - 1).len() {
                    assert(d.tiers(all, n)[i] == d.tiers(all, n - 1)[i]);
                }
            }
        }
    }
}

/// Tiers that may not be rolled weigh nothing.
proof fn lemma_no_tiers(d: Demand, all: Seq<AffixTier>, n: int)
    requires
        0 <= n <= all.len(),
        forall|t: int| 0 <= t < n ==> !d.admits_tier(#[trigger] all[t]),
    ensures
        tiers_before(all, d.ilvl, d.tier_floor, n) == 0,
    decreases n,
{
    if n > 0 {
        lemma_no_tiers(d, all, n - 1);
    }
}

/// What is on offer weighs what the affixes do.
proof fn lemma_affixes_before(d: Demand, all: Seq<Affix>, n: int)
    requires
        0 <= n <= all.len(),
    ensures
        d.offer(all, n) == affixes_before(all, d, n),
    decreases n,
{
    if n > 0 {
        let a = all[n - 1];
        lemma_affixes_before(d, all, n - 1);
        lemma_tiers_before(d, a.tiers@, a.tiers@.len() as int);
        if !(exists|t: int| 0 <= t < a.tiers@.len() && d.admits_tier(#[trigger] a.tiers@[t])) {
            lemma_no_tiers(d, a.tiers@, a.tiers@.len() as int);
        }
    }
}

/// What the candidates before one of them weigh is what is on offer before it in the table.
proof fn lemma_candidates_before(d: Demand, all: Seq<Affix>, n: int)
    requires
        0 <= n <= all.len(),
        d.fits(all),
    ensures
        forall|i: int|
            0 <= i < d.affixes(all, n).len() ==> weight_of_first(d.affix_weights(all, n), i)
                == d.offer(all, #[trigger] d.affixes(all, n)[i]) && d.affix_weights(all, n)[i]
                == d.weight(all[d.affixes(all, n)[i]]),
    decreases n,
{
    if n > 0 {
        lemma_candidates_before(d, all, n - 1);
        lemma_affix_weights(d, all, n - 1);
        lemma_offer_grows(d, all, 0, all.len() as int);
        if d.admits(all[n - 1]) {
            let before = d.affix_weights(all, n - 1);
            let after = d.affix_weights(all, n);
            assert(after =~= before.push(d.weight(all[n - 1]) as u32));
            assert forall|i: int| 0 <= i < d.affixes(all, n).len() implies weight_of_first(after, i)
                == d.offer(all, #[trigger] d.affixes(all, n)[i]) && after[i] == d.weight(
                all[d.affixes(all, n)[i]],
            ) by {
                lemma_weight_of_prefix(after, before, i);
                if i < d.affixes(all, n - 1).len() {
                    assert(d.affixes(all, n)[i] == d.affixes(all, n - 1)[i]);
                }
            }
        }
    }
}

/// The state of a generator after a number below `total` and then `n` words were asked of
/// it.
pub open spec fn after_pick(g: RngState, total: int, n: int) -> RngState {
    RngState {
        seed: g.seed,
        past: g.past.push(Draw::Range32 { lo: 0, hi: (total - 1) as u32 }) + Seq::new(
            n as nat,
            |i: int| Draw::Word32,
        ),
    }
}

/// The values of an affix are the words that the generator hands out next, one for each
/// stat: their upper 24 bits.
proof fn lemma_draws_are_words(g: RngState, n: nat)
    ensures
        ({
            let (draws, after) = stat_draws(g, n);
            &&& draws.len() == n
            &&& forall|i: int|
                #![trigger draws[i]]
                0 <= i < n ==> draws[i] == (RngState {
                    seed: g.seed,
                    past: g.past + Seq::new(i as nat, |j: int| Draw::Word32),
                }).word32() >> 8
            &&& after == (RngState {
                seed: g.seed,
                past: g.past + Seq::new(n, |j: int| Draw::Word32),
            })
        }),
    decreases n,
{
    if n > 0 {
        lemma_draws_are_words(g, (n - 1) as nat);
        assert((g.past + Seq::new((n - 1) as nat, |j: int| Draw::Word32)).push(Draw::Word32)
            =~= g.past + Seq::new(n, |j: int| Draw::Word32));
    } else {
        assert(g.past + Seq::new(0, |j: int| Draw::Word32) =~= g.past);
    }
}

/// An affix is picked by weight, and then one of its tiers is. Of the numbers below the
/// weight of the whole table the generator draws one; the affix is the one that owns it:
/// those before it in the table weigh no more than that number, and with it they weigh
/// more. In the same way the next number picks the tier, and then every stat of the tier
/// takes the upper 24 bits of one word. Nothing is rolled only where nothing has weight.
pub proof fn law_affixes_are_picked_by_weight(g: RngState, all: Seq<Affix>, d: Demand)
    requires
        affixes_before(all, d, all.len() as int) <= u32::MAX,
    ensures
        ({
            let total = affixes_before(all, d, all.len() as int);
            let (rolled, after) = rolled_one(g, all, d);
            &&& rolled is None <==> total == 0
            &&& rolled is None ==> after == g
            &&& rolled matches Some(p) ==> {
                let n = g.range32(0, (total - 1) as u32);
                let tiers = all[p.affix].tiers@;
                let own = tiers_before(tiers, d.ilvl, d.tier_floor, tiers.len() as int);
                let g1 = after_pick(g, total, 0);
                let m = g1.range32(0, (own - 1) as u32);
                &&& 0 <= p.affix < all.len()
                &&& affixes_before(all, d, p.affix) <= n < affixes_before(all, d, p.affix + 1)
                &&& affixes_before(all, d, p.affix + 1) == affixes_before(all, d, p.affix) + own
                &&& 0 <= p.tier < tiers.len()
                &&& tiers_before(tiers, d.ilvl, d.tier_floor, p.tier) <= m < tiers_before(
                    tiers,
                    d.ilvl,
                    d.tier_floor,
                    p.tier + 1,
                )
                &&& p.draws.len() == tiers[p.tier].stats@.len()
                &&& forall|i: int|
                    #![trigger p.draws[i]]
                    0 <= i < p.draws.len() ==> p.draws[i] == after_pick(g1, own, i).word32() >> 8
                &&& after == after_pick(g1, own, p.draws.len() as int)
            }
        }),
{
    let n = all.len() as int;
    lemma_affixes_before(d, all, n);
    lemma_affix_weights(d, all, n);
    lemma_candidates_before(d, all, n);
    let weights = d.affix_weights(all, n);
    lemma_weighted_pick(g, weights);
    let total = weight_of_all(weights);
    if total > 0 {
        let pick = g.range32(0, (total - 1) as u32) as int;
        law_every_number_is_owned(weights, pick);
        let c = owner(weights, pick);
        let affix = d.affixes(all, n)[c];
        lemma_affixes_before(d, all, affix);
        lemma_affixes_before(d, all, affix + 1);
        let g1 = g.after(Draw::Range32 { lo: 0, hi: (total - 1) as u32 });
        assert(g1.past =~= after_pick(g, total, 0).past);
        assert(g1 == after_pick(g, total, 0));
        let tiers = all[affix].tiers@;
        let m = tiers.len() as int;
        lemma_tier_weights(d, tiers, m);
        lemma_tiers_before(d, tiers, m);
        lemma_offer_grows(d, all, 0, n);
        let own = d.tier_weights(tiers, m);
        lemma_weighted_pick(g1, own);
        let at = g1.range32(0, (weight_of_all(own) - 1) as u32) as int;
        law_every_number_is_owned(own, at);
        let t = owner(own, at);
        let tier = d.tiers(tiers, m)[t];
        let g2 = g1.after(Draw::Range32 { lo: 0, hi: (weight_of_all(own) - 1) as u32 });
        lemma_draws_are_words(g2, tiers[tier].stats@.len());
    }
}

/// A demand once the groups of some affixes are taken as well.
pub open spec fn less(d: Demand, all: Seq<Affix>, p: Seq<Picked>) -> Demand {
    Demand { taken: d.taken + groups_of(p, all), ..d }
}

/// Whether an affix is what some later state of a generator rolls to meet a demand.
pub open spec fn rolled_later(g: RngState, all: Seq<Affix>, d: Demand, p: Picked) -> bool {
    exists|h: RngState|
        #![trigger rolled_one(h, all, d)]
        h.seed == g.seed && g.past.is_prefix_of(h.past) && rolled_one(h, all, d).0 == Some(p)
}

/// What is rolled only adds to what was asked of the generator.
proof fn lemma_past_grows(g: RngState, all: Seq<Affix>, d: Demand)
    requires
        d.fits(all),
    ensures
        rolled_one(g, all, d).1.seed == g.seed,
        g.past.is_prefix_of(rolled_one(g, all, d).1.past),
{
    lemma_affixes_before(d, all, all.len() as int);
    law_affixes_are_picked_by_weight(g, all, d);
    let after = rolled_one(g, all, d).1;
    assert forall|i: int| 0 <= i < g.past.len() implies g.past[i] == after.past[i] by {}
}

/// The affixes of a slot are rolled one after the other, each from what is left of the table
/// once the groups of those before it are taken. There are fewer than were asked for only
/// where nothing is left that has weight.
pub proof fn law_slots_are_filled(g: RngState, all: Seq<Affix>, d: Demand, count: nat)
    requires
        affixes_before(all, d, all.len() as int) <= u32::MAX,
    ensures
        ({
            let p = rolled_set(g, all, d, count).0;
            &&& p.len() <= count
            &&& p.len() < count ==> affixes_before(all, less(d, all, p), all.len() as int) == 0
            &&& forall|i: int|
                #![trigger p[i]]
                0 <= i < p.len() ==> rolled_later(g, all, less(d, all, p.take(i)), p[i])
        }),
    decreases count,
{
    let n = all.len() as int;
    lemma_affixes_before(d, all, n);
    let p = rolled_set(g, all, d, count).0;
    if count > 0 {
        law_affixes_are_picked_by_weight(g, all, d);
        match rolled_one(g, all, d) {
            (None, g1) => {
                assert(less(d, all, p).taken =~= d.taken);
            },
            (Some(q), g1) => {
                let e = d.without(group_of(q, all));
                lemma_still_fits(d, all, group_of(q, all));
                lemma_affixes_before(e, all, n);
                lemma_past_grows(g, all, d);
                let rest = rolled_set(g1, all, e, (count - 1) as nat).0;
                law_slots_are_filled(g1, all, e, (count - 1) as nat);
                assert(p == seq![q] + rest);
                assert(less(d, all, p).taken =~= less(e, all, rest).taken);
                assert forall|i: int| #![trigger p[i]] 0 <= i < p.len() implies rolled_later(
                    g,
                    all,
                    less(d, all, p.take(i)),
                    p[i],
                ) by {
                    if i == 0 {
                        assert(less(d, all, p.take(0)).taken =~= d.taken);
                        assert(less(d, all, p.take(0)) == d);
                        assert(rolled_one(g, all, d).0 == Some(q));
                    } else {
                        assert(p[i] == rest[i - 1]);
                        let f = less(e, all, rest.take(i - 1));
                        assert(less(d, all, p.take(i)).taken =~= f.taken);
                        assert(less(d, all, p.take(i)) == f);
                        let h = choose|h: RngState|
                            #![trigger rolled_one(h, all, f)]
                            h.seed == g1.seed && g1.past.is_prefix_of(h.past) && rolled_one(
                                h,
                                all,
                                f,
                            ).0 == Some(rest[i - 1]);
                        assert(g.past.is_prefix_of(h.past)) by {
                            assert forall|k: int| 0 <= k < g.past.len() implies g.past[k]
                                == h.past[k] by {
                                assert(g1.past[k] == g.past[k]);
                            }
                        }
                        assert(rolled_one(h, all, f).0 == Some(p[i]));
                    }
                }
            },
        }
    }
}

/// How many affixes an item gets is what the generator says. A common item has both kinds
/// if a fair event happens, and otherwise a prefix if another one does, or else a suffix.
/// For the rarer ones the next number is that of all affixes, and the one after it how many
/// of them are prefixes.
pub proof fn law_affix_counts_are_drawn(g: RngState, rarity: Rarity)
    ensures
        ({
            let ((p, s), after) = counts(g, rarity);
            let past = g.past;
            let odds = Draw::Ratio { numerator: 1, denominator: 2 };
            let first = answer_ratio(g.seed, past, 1, 2);
            let second = answer_ratio(g.seed, past.push(odds), 1, 2);
            &&& rarity == Rarity::Basic ==> after == g
            &&& rarity == Rarity::Common ==> {
                &&& p == 1 <==> first || second
                &&& s == 1 <==> first || !second
                &&& after.past == if first {
                    past.push(odds)
                } else {
                    past.push(odds).push(odds)
                }
            }
            &&& (rarity == Rarity::Rare || rarity == Rarity::Epic || rarity == Rarity::Legendary)
                ==> {
                let least = (rarity.rank() + 1) as u64;
                let most = (rarity.rank() + 2) as u64;
                let all = Draw::Range64 { first: least, last: most };
                let split = Draw::Range64 { first: (p + s - 3) as u64, last: 3 };
                &&& p + s == g.range64(least, most)
                &&& p == (RngState { seed: g.seed, past: past.push(all) }).range64(
                    (p + s - 3) as u64,
                    3,
                )
                &&& after.past == past.push(all).push(split)
            }
            &&& after.seed == g.seed
        }),
{
}

/// Everything about an item is drawn from the generator, in this order: which of the bases
/// it is of, each with the same chance; its seed; how many affixes it gets; the prefixes;
/// and the suffixes, whose groups differ from those of the prefixes.
pub proof fn law_items_are_drawn_in_order(
    g: RngState,
    bases: Seq<BaseItem>,
    all: Seq<Affix>,
    ilvl: u32,
    rarity: Rarity,
)
    requires
        0 < bases.len() <= u64::MAX,
        can_roll(bases, all, ilvl, rarity),
    ensures
        ({
            let r = rolled_item(g, bases, all, ilvl, rarity);
            let last = (bases.len() - 1) as u64;
            let past = g.past.push(Draw::Range64 { first: 0, last });
            let g2 = RngState { seed: g.seed, past: past.push(Draw::Word64) };
            let ((p, s), g3) = counts(g2, rarity);
            let prefix = Demand {
                slot: AffixSlot::Prefix,
                category: bases[r.base].category@,
                ilvl,
                tier_floor: if rarity == Rarity::Legendary {
                    2
                } else {
                    255
                },
                taken: Seq::empty(),
            };
            let suffix = Demand {
                slot: AffixSlot::Suffix,
                taken: groups_of(r.prefixes, all),
                ..prefix
            };
            &&& r.base == g.range64(0, last)
            &&& r.seed == answer_word64(g.seed, past)
            &&& r.prefixes.len() <= p
            &&& r.suffixes.len() <= s
            &&& r.prefixes.len() < p ==> affixes_before(
                all,
                less(prefix, all, r.prefixes),
                all.len() as int,
            ) == 0
            &&& r.suffixes.len() < s ==> affixes_before(
                all,
                less(suffix, all, r.suffixes),
                all.len() as int,
            ) == 0
            &&& forall|i: int|
                #![trigger r.prefixes[i]]
                0 <= i < r.prefixes.len() ==> rolled_later(
                    g3,
                    all,
                    less(prefix, all, r.prefixes.take(i)),
                    r.prefixes[i],
                )
            &&& forall|i: int|
                #![trigger r.suffixes[i]]
                0 <= i < r.suffixes.len() ==> rolled_later(
                    g3,
                    all,
                    less(suffix, all, r.suffixes.take(i)),
                    r.suffixes[i],
                )
        }),
{
    let r = rolled_item(g, bases, all, ilvl, rarity);
    let last = (bases.len() - 1) as u64;
    let past = g.past.push(Draw::Range64 { first: 0, last });
    let g2 = RngState { seed: g.seed, past: past.push(Draw::Word64) };
    let ((p, s), g3) = counts(g2, rarity);
    let prefix = item_demand(bases[r.base], ilvl, rarity, AffixSlot::Prefix);
    let n = all.len() as int;
    if rarity != Rarity::Basic {
        assert(base_fits(bases[r.base], all, ilvl, rarity));
        lemma_affixes_before(prefix, all, n);
        law_slots_are_filled(g3, all, prefix, p as nat);
        lemma_rolled_set(g3, all, prefix, p as nat);
        lemma_set_past_grows(g3, all, prefix, p as nat);
        let (prefixes, d1, g4) = rolled_set(g3, all, prefix, p as nat);
        let suffix = Demand { slot: AffixSlot::Suffix, ..d1 };
        assert(d1.taken =~= groups_of(r.prefixes, all));
        let fresh = item_demand(bases[r.base], ilvl, rarity, AffixSlot::Suffix);
        lemma_offer_shrinks(fresh, suffix, all, n);
        lemma_affixes_before(suffix, all, n);
        law_slots_are_filled(g4, all, suffix, s as nat);
        assert forall|i: int| #![trigger r.suffixes[i]] 0 <= i < r.suffixes.len() implies rolled_later(
            g3,
            all,
            less(suffix, all, r.suffixes.take(i)),
            r.suffixes[i],
        ) by {
            let f = less(suffix, all, r.suffixes.take(i));
            assert(rolled_later(g4, all, f, r.suffixes[i]));
            let h = choose|h: RngState|
                #![trigger rolled_one(h, all, f)]
                h.seed == g4.seed && g4.past.is_prefix_of(h.past) && rolled_one(h, all, f).0
                    == Some(r.suffixes[i]);
            lemma_prefix_of(g3.past, g4.past, h.past);
            assert(rolled_one(h, all, f).0 == Some(r.suffixes[i]));
        }
    }
}

proof fn lemma_prefix_of(a: Seq<Draw>, b: Seq<Draw>, c: Seq<Draw>)
    requires
        a.is_prefix_of(b),
        b.is_prefix_of(c),
    ensures
        a.is_prefix_of(c),
{
    assert forall|k: int| 0 <= k < a.len() implies a[k] == c[k] by {
        assert(b[k] == a[k]);
    }
}

proof fn lemma_set_past_grows(g: RngState, all: Seq<Affix>, d: Demand, count: nat)
    requires
        d.fits(all),
    ensures
        rolled_set(g, all, d, count).2.seed == g.seed,
        g.past.is_prefix_of(rolled_set(g, all, d, count).2.past),
    decreases count,
{
    if count > 0 {
        lemma_past_grows(g, all, d);
        if let (Some(q), g1) = rolled_one(g, all, d) {
            let e = d.without(group_of(q, all));
            lemma_still_fits(d, all, group_of(q, all));
            lemma_set_past_grows(g1, all, e, (count - 1) as nat);
            let g2 = rolled_set(g1, all, e, (count - 1) as nat).2;
            lemma_prefix_of(g.past, g1.past, g2.past);
        }
    }
}

/// What stands on a rolled item is what was picked from the table: the id and the tier of
/// each affix, and for every stat of the tier its range and where in it the value fell.
pub proof fn law_affixes_read_as_picked(
    item: ItemInstance,
    bases: Seq<BaseItem>,
    all: Seq<Affix>,
    ilvl: u32,
    rarity: Rarity,
    r: RolledItem,
    i: int,
    s: int,
)
    requires
        is_rolled(item, bases, all, ilvl, rarity, r),
    ensures
        item.base@ == bases[r.base].id@,
        item.ilvl == ilvl,
        item.rarity == rarity,
        item.seed == r.seed,
        item.upgrade_tier == 0,
        item.attached@.len() == 0,
        item.prefixes@.len() == r.prefixes.len(),
        item.suffixes@.len() == r.suffixes.len(),
        0 <= i < r.prefixes.len() ==> reads_as(item.prefixes@[i], all, r.prefixes[i], s),
        0 <= i < r.suffixes.len() ==> reads_as(item.suffixes@[i], all, r.suffixes[i], s),
{
    if 0 <= i < r.prefixes.len() {
        assert(is_picked(item.prefixes@[i], all, r.prefixes[i]));
    }
    if 0 <= i < r.suffixes.len() {
        assert(is_picked(item.suffixes@[i], all, r.suffixes[i]));
    }
}

/// Whether an affix on an item names what was picked, and its value for the `s`-th stat is
/// the draw for that stat within the range of that stat.
pub open spec fn reads_as(a: RolledAffix, all: Seq<Affix>, p: Picked, s: int) -> bool {
    let stats = all[p.affix].tiers@[p.tier].stats@;
    &&& a.affix_id@ == all[p.affix].id@
    &&& a.tier == all[p.affix].tiers@[p.tier].tier
    &&& a.rolls@.len() == stats.len()
    &&& 0 <= s < stats.len() ==> {
        &&& a.rolls@[s].min == stats[s].min
        &&& a.rolls@[s].max == stats[s].max
        &&& a.rolls@[s].draw == p.draws[s]
    }
}

/// Rolling an item leaves the generator the same one.
pub proof fn lemma_items_keep_the_seed(
    g: RngState,
    bases: Seq<BaseItem>,
    all: Seq<Affix>,
    ilvl: u32,
    rarity: Rarity,
)
    requires
        0 < bases.len() <= u64::MAX,
        can_roll(bases, all, ilvl, rarity),
    ensures
        rolled_item(g, bases, all, ilvl, rarity).rng.seed == g.seed,
{
    let r = rolled_item(g, bases, all, ilvl, rarity);
    let last = (bases.len() - 1) as u64;
    let g1 = g.after(Draw::Range64 { first: 0, last });
    let ((p, s), g2) = counts(g1.after(Draw::Word64), rarity);
    law_affix_counts_are_drawn(g1.after(Draw::Word64), rarity);
    let prefix = item_demand(bases[r.base], ilvl, rarity, AffixSlot::Prefix);
    if rarity != Rarity::Basic {
        assert(base_fits(bases[r.base], all, ilvl, rarity));
        lemma_set_past_grows(g2, all, prefix, p as nat);
        lemma_rolled_set(g2, all, prefix, p as nat);
        let (prefixes, d1, g3) = rolled_set(g2, all, prefix, p as nat);
        let suffix = Demand { slot: AffixSlot::Suffix, ..d1 };
        let fresh = item_demand(bases[r.base], ilvl, rarity, AffixSlot::Suffix);
        assert(d1.taken =~= groups_of(prefixes, all));
        lemma_offer_shrinks(fresh, suffix, all, all.len() as int);
        lemma_set_past_grows(g3, all, suffix, s as nat);
    }
}

/// When items can be rolled: whenever, for each of the bases, the prefixes and the suffixes
/// that it may get at that level and rarity weigh no more than `u32` holds. Basic items can
/// always be.
pub proof fn law_when_items_can_be_rolled(
    bases: Seq<BaseItem>,
    all: Seq<Affix>,
    ilvl: u32,
    rarity: Rarity,
)
    ensures
        can_roll(bases, all, ilvl, rarity) <==> rarity == Rarity::Basic || forall|b: int, prefix: bool|
            #![trigger slot_weight(bases[b], all, ilvl, rarity, prefix)]
            0 <= b < bases.len() ==> slot_weight(bases[b], all, ilvl, rarity, prefix) <= u32::MAX,
{
    assert forall|b: int| 0 <= b < bases.len() implies (#[trigger] base_fits(
        bases[b],
        all,
        ilvl,
        rarity,
    ) <==> slot_weight(bases[b], all, ilvl, rarity, true) <= u32::MAX && slot_weight(
        bases[b],
        all,
        ilvl,
        rarity,
        false,
    ) <= u32::MAX) by {
        let n = all.len() as int;
        lemma_affixes_before(item_demand(bases[b], ilvl, rarity, AffixSlot::Prefix), all, n);
        lemma_affixes_before(item_demand(bases[b], ilvl, rarity, AffixSlot::Suffix), all, n);
    }
    if can_roll(bases, all, ilvl, rarity) && rarity != Rarity::Basic {
        assert forall|b: int, prefix: bool|
            #![trigger slot_weight(bases[b], all, ilvl, rarity, prefix)]
            0 <= b < bases.len() implies slot_weight(bases[b], all, ilvl, rarity, prefix)
            <= u32::MAX by {
            assert(base_fits(bases[b], all, ilvl, rarity));
        }
    }
    if !can_roll(bases, all, ilvl, rarity) {
        let b = choose|b: int|
            0 <= b < bases.len() && !base_fits(#[trigger] bases[b], all, ilvl, rarity);
        assert(slot_weight(bases[b], all, ilvl, rarity, true) > u32::MAX || slot_weight(
            bases[b],
            all,
            ilvl,
            rarity,
            false,
        ) > u32::MAX);
    }
}

/// What the prefixes or the suffixes weigh that an item of the given base may get.
pub open spec fn slot_weight(
    base: BaseItem,
    all: Seq<Affix>,
    ilvl: u32,
    rarity: Rarity,
    prefix: bool,
) -> int {
    affixes_before(
        all,
        Demand {
            slot: if prefix {
                AffixSlot::Prefix
            } else {
                AffixSlot::Suffix
            },
            category: base.category@,
            ilvl,
            tier_floor: if rarity == Rarity::Legendary {
                2
            } else {
                255
            },
            taken: Seq::empty(),
        },
        all.len() as int,
    )
}

/// What a base may get weighs what is on offer.
pub proof fn lemma_affixes_before_of_base(
    base: BaseItem,
    all: Seq<Affix>,
    ilvl: u32,
    rarity: Rarity,
)
    ensures
        ({
            let d = item_demand(base, ilvl, rarity, AffixSlot::Prefix);
            &&& 0 <= affixes_before(all, d, all.len() as int)
            &&& affixes_before(all, d, all.len() as int) <= u32::MAX <==> d.fits(all)
        }),
{
    let d = item_demand(base, ilvl, rarity, AffixSlot::Prefix);
    lemma_affixes_before(d, all, all.len() as int);
    lemma_offer_grows(d, all, 0, all.len() as int);
}

/// Whether an affix on an item is the one that the numbers of a generator pick to meet a
/// demand: the `k`-th affix of the table owns the first number, the `t`-th tier of it the
/// second, and its values are the words after that.
pub open spec fn owns_its_numbers(
    a: RolledAffix,
    all: Seq<Affix>,
    d: Demand,
    h: RngState,
    k: int,
    t: int,
) -> bool {
    let total = affixes_before(all, d, all.len() as int);
    let tiers = all[k].tiers@;
    let own = tiers_before(tiers, d.ilvl, d.tier_floor, tiers.len() as int);
    let h1 = after_pick(h, total, 0);
    let n = h.range32(0, (total - 1) as u32);
    let m = h1.range32(0, (own - 1) as u32);
    &&& 0 <= k < all.len()
    &&& a.affix_id@ == all[k].id@
    &&& affixes_before(all, d, k) <= n < affixes_before(all, d, k + 1)
    &&& 0 <= t < tiers.len()
    &&& a.tier == tiers[t].tier
    &&& tiers_before(tiers, d.ilvl, d.tier_floor, t) <= m < tiers_before(
        tiers,
        d.ilvl,
        d.tier_floor,
        t + 1,
    )
    &&& a.rolls@.len() == tiers[t].stats@.len()
    &&& forall|s: int|
        #![trigger a.rolls@[s]]
        0 <= s < a.rolls@.len() ==> a.rolls@[s] == (Roll {
            min: tiers[t].stats@[s].min,
            max: tiers[t].stats@[s].max,
            draw: after_pick(h1, own, s).word32() >> 8,
        })
}

/// Whether an affix is picked by the numbers of some state of the generator of that seed.
pub open spec fn picked_by_weight(a: RolledAffix, all: Seq<Affix>, d: Demand, seed: u64) -> bool {
    exists|h: RngState, k: int, t: int|
        h.seed == seed && #[trigger] owns_its_numbers(a, all, d, h, k, t)
}

proof fn lemma_picked_by_weight(
    g: RngState,
    a: RolledAffix,
    all: Seq<Affix>,
    d: Demand,
    p: Picked,
)
    requires
        rolled_later(g, all, d, p),
        is_picked(a, all, p),
        d.fits(all),
    ensures
        picked_by_weight(a, all, d, g.seed),
{
    let h = choose|h: RngState|
        #![trigger rolled_one(h, all, d)]
        h.seed == g.seed && g.past.is_prefix_of(h.past) && rolled_one(h, all, d).0 == Some(p);
    lemma_affixes_before(d, all, all.len() as int);
    law_affixes_are_picked_by_weight(h, all, d);
    assert(owns_its_numbers(a, all, d, h, p.affix, p.tier));
}

/// Every affix of a rolled item owns the numbers that were drawn for it: among all prefixes
/// or suffixes that the item may get and whose groups are not those of the affixes before it,
/// it is the one that the first number falls on, its tier is the one that the second number
/// falls on, and its values are the words after that.
pub proof fn law_every_affix_owns_its_numbers(
    item: ItemInstance,
    g: RngState,
    bases: Seq<BaseItem>,
    all: Seq<Affix>,
    ilvl: u32,
    rarity: Rarity,
    i: int,
)
    requires
        0 < bases.len() <= u64::MAX,
        can_roll(bases, all, ilvl, rarity),
        is_rolled(item, bases, all, ilvl, rarity, rolled_item(g, bases, all, ilvl, rarity)),
    ensures
        ({
            let r = rolled_item(g, bases, all, ilvl, rarity);
            let d = Demand {
                slot: AffixSlot::Prefix,
                category: bases[g.range64(0, (bases.len() - 1) as u64) as int].category@,
                ilvl,
                tier_floor: if rarity == Rarity::Legendary {
                    2
                } else {
                    255
                },
                taken: Seq::empty(),
            };
            &&& 0 <= i < item.prefixes@.len() ==> picked_by_weight(
                item.prefixes@[i],
                all,
                Demand { taken: groups_of(r.prefixes.take(i), all), ..d },
                g.seed,
            )
            &&& 0 <= i < item.suffixes@.len() ==> picked_by_weight(
                item.suffixes@[i],
                all,
                Demand {
                    slot: AffixSlot::Suffix,
                    taken: groups_of(r.prefixes, all) + groups_of(r.suffixes.take(i), all),
                    ..d
                },
                g.seed,
            )
        }),
{
    let r = rolled_item(g, bases, all, ilvl, rarity);
    law_items_are_drawn_in_order(g, bases, all, ilvl, rarity);
    law_rolled_affixes(g, bases, all, ilvl, rarity);
    let last = (bases.len() - 1) as u64;
    let past = g.past.push(Draw::Range64 { first: 0, last });
    let g2 = RngState { seed: g.seed, past: past.push(Draw::Word64) };
    let ((p, s), g3) = counts(g2, rarity);
    law_affix_counts_are_drawn(g2, rarity);
    let prefix = item_demand(bases[r.base], ilvl, rarity, AffixSlot::Prefix);
    let fresh = item_demand(bases[r.base], ilvl, rarity, AffixSlot::Suffix);
    let suffix = Demand {
        slot: AffixSlot::Suffix,
        taken: groups_of(r.prefixes, all),
        ..prefix
    };
    if rarity != Rarity::Basic {
        assert(base_fits(bases[r.base], all, ilvl, rarity));
        if 0 <= i < item.prefixes@.len() {
            let d = less(prefix, all, r.prefixes.take(i));
            assert(d.taken =~= groups_of(r.prefixes.take(i), all));
            lemma_offer_shrinks(prefix, d, all, all.len() as int);
            assert(rolled_later(g3, all, d, r.prefixes[i]));
            lemma_picked_by_weight(g3, item.prefixes@[i], all, d, r.prefixes[i]);
        }
        if 0 <= i < item.suffixes@.len() {
            let d = less(suffix, all, r.suffixes.take(i));
            lemma_offer_shrinks(fresh, d, all, all.len() as int);
            assert(rolled_later(g3, all, d, r.suffixes[i]));
            lemma_picked_by_weight(g3, item.suffixes@[i], all, d, r.suffixes[i]);
        }
    }
}

} // verus!
