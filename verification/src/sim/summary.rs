//! Distribution rollups for the loot simulator: what was recorded of each drop, by rarity,
//! by base and by affix tier.

use vstd::prelude::*;

use crate::rules::affix::Affix;
use crate::rules::item::{ItemInstance, RolledAffix};
use crate::scalar::{Scalar, INFINITY, NEG_INFINITY};
use crate::text::{before, comes_before, lemma_before_total, lemma_before_trans};

verus! {

#[derive(Debug, Clone, Copy, PartialEq, Eq, Structural)]
pub struct RaritySum {
    pub count: u32,
    pub sum_affixes: u64,
}

/// What was measured of the drops of one base. Times to kill are only meaningful for
/// weapons, so they are kept apart and other drops don't drag their average toward zero.
#[derive(Debug)]
pub struct BaseSum {
    pub base: String,
    pub dps: Vec<Scalar>,
    pub ttk: Vec<Scalar>,
    /// The times to kill by rarity, from the most common to the least.
    pub ttk_by_rarity: Vec<Vec<Scalar>>,
}

/// The values that were rolled for one stat of an affix tier, and the extremes.
#[derive(Debug)]
pub struct RollStats {
    pub values: Vec<Scalar>,
    pub min: Scalar,
    pub max: Scalar,
}

#[derive(Debug)]
pub struct AffixTierSum {
    pub affix_id: String,
    pub tier: u8,
    pub count: u32,
    pub rolls: Vec<RollStats>,
}

/// What was recorded, the bases and the affix tiers in the order of their names.
#[derive(Debug)]
pub struct Summary {
    pub drops: u32,
    pub rarities: Vec<RaritySum>,
    pub by_base: Vec<BaseSum>,
    pub by_affix_tier: Vec<AffixTierSum>,
}

/// What was measured of the drops of one base.
pub struct BaseTally {
    pub dps: Seq<Scalar>,
    pub ttk: Seq<Scalar>,
    pub ttk_by_rarity: Seq<Seq<Scalar>>,
}

impl BaseTally {
    /// Nothing measured yet.
    pub open spec fn empty() -> BaseTally {
        BaseTally {
            dps: Seq::empty(),
            ttk: Seq::empty(),
            ttk_by_rarity: Seq::new(5, |i: int| Seq::empty()),
        }
    }

    /// The tally with one more drop. Only a positive time to kill counts.
    pub open spec fn with(self, dps: Scalar, ttk: Scalar, rarity: int) -> BaseTally {
        if !ttk.is_nan() && ttk.value() > 0 {
            BaseTally {
                dps: self.dps.push(dps),
                ttk: self.ttk.push(ttk),
                ttk_by_rarity: self.ttk_by_rarity.update(
                    rarity,
                    self.ttk_by_rarity[rarity].push(ttk),
                ),
            }
        } else {
            BaseTally { dps: self.dps.push(dps), ..self }
        }
    }
}

impl BaseSum {
    pub open spec fn tally(self) -> BaseTally {
        BaseTally {
            dps: self.dps@,
            ttk: self.ttk@,
            ttk_by_rarity: self.ttk_by_rarity@.map_values(|v: Vec<Scalar>| v@),
        }
    }
}

/// The values that were rolled for one stat, and the extremes.
pub struct RollTally {
    pub values: Seq<Scalar>,
    pub min: Scalar,
    pub max: Scalar,
}

impl RollTally {
    pub open spec fn empty() -> RollTally {
        RollTally {
            values: Seq::empty(),
            min: Scalar { bits: INFINITY },
            max: Scalar { bits: NEG_INFINITY },
        }
    }

    /// The tally with one more value.
    pub open spec fn with(self, value: Scalar) -> RollTally {
        RollTally {
            values: self.values.push(value),
            min: if value.less_than(self.min) {
                value
            } else {
                self.min
            },
            max: if self.max.less_than(value) {
                value
            } else {
                self.max
            },
        }
    }
}

impl RollStats {
    pub open spec fn tally(self) -> RollTally {
        RollTally { values: self.values@, min: self.min, max: self.max }
    }

    /// No value yet.
    fn empty() -> (r: RollStats)
        ensures
            r.tally() == RollTally::empty(),
    {
        let r = RollStats {
            values: Vec::new(),
            min: Scalar { bits: INFINITY },
            max: Scalar { bits: NEG_INFINITY },
        };
        assert(r.values@ =~= Seq::empty());
        r
    }

    /// One more value.
    fn observe(&mut self, value: Scalar)
        ensures
            final(self).tally() == old(self).tally().with(value),
    {
        self.values.push(value);
        if value.lt(&self.min) {
            self.min = value;
        }
        if self.max.lt(&value) {
            self.max = value;
        }
    }
}

/// What was recorded of one affix tier.
pub struct AffixTally {
    pub count: nat,
    pub rolls: Seq<RollTally>,
}

impl AffixTally {
    pub open spec fn empty() -> AffixTally {
        AffixTally { count: 0, rolls: Seq::empty() }
    }

    /// The tally with one more affix, whose stats rolled the given values.
    pub open spec fn with(self, values: Seq<Scalar>) -> AffixTally {
        AffixTally {
            count: self.count + 1,
            rolls: Seq::new(
                if self.rolls.len() < values.len() {
                    values.len()
                } else {
                    self.rolls.len()
                },
                |i: int|
                    {
                        let before = if i < self.rolls.len() {
                            self.rolls[i]
                        } else {
                            RollTally::empty()
                        };
                        if i < values.len() {
                            before.with(values[i])
                        } else {
                            before
                        }
                    },
            ),
        }
    }
}

/// An affix tier by its affix id and number.
pub type TierKey = (Seq<char>, u8);

/// Whether an affix tier comes before another: by affix id, then by number.
pub open spec fn key_before(a: TierKey, b: TierKey) -> bool {
    before(a.0, b.0) || (a.0 == b.0 && a.1 < b.1)
}

impl AffixTierSum {
    pub open spec fn key(self) -> TierKey {
        (self.affix_id@, self.tier)
    }

    pub open spec fn tally(self) -> AffixTally {
        AffixTally {
            count: self.count as nat,
            rolls: self.rolls@.map_values(|r: RollStats| r.tally()),
        }
    }
}

/// Whether the entries are in the order of their names.
pub open spec fn bases_sorted(entries: Seq<BaseSum>) -> bool {
    forall|i: int, j: int|
        0 <= i < j < entries.len() ==> before(
            (#[trigger] entries[i]).base@,
            (#[trigger] entries[j]).base@,
        )
}

/// Whether the entries are in the order of their keys.
pub open spec fn tiers_sorted(entries: Seq<AffixTierSum>) -> bool {
    forall|i: int, j: int|
        0 <= i < j < entries.len() ==> key_before(
            (#[trigger] entries[i]).key(),
            (#[trigger] entries[j]).key(),
        )
}

pub open spec fn base_at(entries: Seq<BaseSum>, name: Seq<char>, i: int) -> bool {
    0 <= i < entries.len() && entries[i].base@ == name
}

pub open spec fn tier_at(entries: Seq<AffixTierSum>, key: TierKey, i: int) -> bool {
    0 <= i < entries.len() && entries[i].key() == key
}

/// The tallies by base.
pub open spec fn base_map(entries: Seq<BaseSum>) -> Map<Seq<char>, BaseTally> {
    Map::new(
        |name: Seq<char>| exists|i: int| base_at(entries, name, i),
        |name: Seq<char>| entries[choose|i: int| base_at(entries, name, i)].tally(),
    )
}

/// The tallies by affix tier.
pub open spec fn tier_map(entries: Seq<AffixTierSum>) -> Map<TierKey, AffixTally> {
    Map::new(
        |key: TierKey| exists|i: int| tier_at(entries, key, i),
        |key: TierKey| entries[choose|i: int| tier_at(entries, key, i)].tally(),
    )
}

/// The tallies with one more drop of the given base.
pub open spec fn with_drop(
    tallies: Map<Seq<char>, BaseTally>,
    base: Seq<char>,
    dps: Scalar,
    ttk: Scalar,
    rarity: int,
) -> Map<Seq<char>, BaseTally> {
    let sofar = if tallies.dom().contains(base) {
        tallies[base]
    } else {
        BaseTally::empty()
    };
    tallies.insert(base, sofar.with(dps, ttk, rarity))
}

/// The tallies with one more affix of the given tier.
pub open spec fn with_affix(
    tallies: Map<TierKey, AffixTally>,
    key: TierKey,
    values: Seq<Scalar>,
) -> Map<TierKey, AffixTally> {
    let sofar = if tallies.dom().contains(key) {
        tallies[key]
    } else {
        AffixTally::empty()
    };
    tallies.insert(key, sofar.with(values))
}

/// The tallies with the first `n` of some affixes, `offset` values further on in the list of
/// what was rolled.
pub open spec fn with_affixes(
    tallies: Map<TierKey, AffixTally>,
    affixes: Seq<RolledAffix>,
    values: Seq<Vec<Scalar>>,
    offset: int,
    n: int,
) -> Map<TierKey, AffixTally>
    decreases n,
{
    if n <= 0 {
        tallies
    } else {
        with_affix(
            with_affixes(tallies, affixes, values, offset, n - 1),
            (affixes[n - 1].affix_id@, affixes[n - 1].tier),
            values[offset + n - 1]@,
        )
    }
}

proof fn lemma_base_map(entries: Seq<BaseSum>, i: int)
    requires
        bases_sorted(entries),
        0 <= i < entries.len(),
    ensures
        base_map(entries).dom().contains(entries[i].base@),
        base_map(entries)[entries[i].base@] == entries[i].tally(),
{
    let name = entries[i].base@;
    assert(base_at(entries, name, i));
    let c = choose|c: int| base_at(entries, name, c);
    assert(base_at(entries, name, c));
    lemma_before_total(name, name);
    if c < i {
        assert(before(entries[c].base@, entries[i].base@));
    } else if i < c {
        assert(before(entries[i].base@, entries[c].base@));
    }
}

proof fn lemma_tier_map(entries: Seq<AffixTierSum>, i: int)
    requires
        tiers_sorted(entries),
        0 <= i < entries.len(),
    ensures
        tier_map(entries).dom().contains(entries[i].key()),
        tier_map(entries)[entries[i].key()] == entries[i].tally(),
{
    let key = entries[i].key();
    assert(tier_at(entries, key, i));
    let c = choose|c: int| tier_at(entries, key, c);
    assert(tier_at(entries, key, c));
    lemma_before_total(key.0, key.0);
    if c < i {
        assert(key_before(entries[c].key(), entries[i].key()));
    } else if i < c {
        assert(key_before(entries[i].key(), entries[c].key()));
    }
}

/// Changing the entry of a base changes its tally and no other.
proof fn lemma_base_update(entries: Seq<BaseSum>, p: int, e: BaseSum)
    requires
        bases_sorted(entries),
        0 <= p < entries.len(),
        e.base@ == entries[p].base@,
    ensures
        bases_sorted(entries.update(p, e)),
        base_map(entries.update(p, e)) == base_map(entries).insert(e.base@, e.tally()),
{
    let new = entries.update(p, e);
    assert forall|i: int, j: int| 0 <= i < j < new.len() implies before(
        (#[trigger] new[i]).base@,
        (#[trigger] new[j]).base@,
    ) by {
        assert(new[i].base@ == entries[i].base@);
        assert(new[j].base@ == entries[j].base@);
    }
    let want = base_map(entries).insert(e.base@, e.tally());
    assert forall|name: Seq<char>| base_map(new).dom().contains(name) <==> want.dom().contains(
        name,
    ) by {
        if base_map(new).dom().contains(name) {
            let i = choose|i: int| base_at(new, name, i);
            assert(base_at(entries, name, i));
        }
        if base_map(entries).dom().contains(name) {
            let i = choose|i: int| base_at(entries, name, i);
            assert(base_at(new, name, i));
        }
        if name == e.base@ {
            assert(base_at(new, name, p));
        }
    }
    assert forall|name: Seq<char>| want.dom().contains(name) implies #[trigger] base_map(new)[name]
        == want[name] by {
        let i = choose|i: int| base_at(new, name, i);
        assert(base_map(new).dom().contains(name));
        assert(base_at(new, name, i));
        lemma_base_map(new, i);
        lemma_base_map(entries, i);
        if i == p {
            assert(name == e.base@);
        } else {
            lemma_base_map(entries, p);
            lemma_before_total(name, name);
            if i < p {
                assert(before(entries[i].base@, entries[p].base@));
            } else {
                assert(before(entries[p].base@, entries[i].base@));
            }
        }
    }
    assert(base_map(new) =~= want);
}

/// Putting in an entry at its place in the order adds its tally and changes no other.
proof fn lemma_base_insert(entries: Seq<BaseSum>, p: int, e: BaseSum)
    requires
        bases_sorted(entries),
        0 <= p <= entries.len(),
        forall|i: int| 0 <= i < p ==> before((#[trigger] entries[i]).base@, e.base@),
        p < entries.len() ==> before(e.base@, entries[p].base@),
    ensures
        bases_sorted(entries.insert(p, e)),
        !base_map(entries).dom().contains(e.base@),
        base_map(entries.insert(p, e)) == base_map(entries).insert(e.base@, e.tally()),
{
    let new = entries.insert(p, e);
    assert forall|i: int| p <= i < entries.len() implies before(
        e.base@,
        (#[trigger] entries[i]).base@,
    ) by {
        if i > p {
            lemma_before_trans(e.base@, entries[p].base@, entries[i].base@);
        }
    }
    assert forall|i: int, j: int| 0 <= i < j < new.len() implies before(
        (#[trigger] new[i]).base@,
        (#[trigger] new[j]).base@,
    ) by {
        let a = if i < p { i } else { i - 1 };
        let b = if j < p { j } else { j - 1 };
        if i == p {
            assert(new[j] == entries[b]);
        } else if j == p {
            assert(new[i] == entries[a]);
        } else {
            assert(new[i] == entries[a]);
            assert(new[j] == entries[b]);
        }
    }
    lemma_before_total(e.base@, e.base@);
    if base_map(entries).dom().contains(e.base@) {
        let i = choose|i: int| base_at(entries, e.base@, i);
        assert(base_at(entries, e.base@, i));
        assert(entries[i].base@ == e.base@);
    }
    let want = base_map(entries).insert(e.base@, e.tally());
    assert forall|name: Seq<char>| base_map(new).dom().contains(name) <==> want.dom().contains(
        name,
    ) by {
        if base_map(new).dom().contains(name) {
            let i = choose|i: int| base_at(new, name, i);
            assert(base_at(new, name, i));
            if i != p {
                assert(base_at(entries, name, if i < p { i } else { i - 1 }));
            }
        }
        if base_map(entries).dom().contains(name) {
            let i = choose|i: int| base_at(entries, name, i);
            assert(base_at(entries, name, i));
            assert(base_at(new, name, if i < p { i } else { i + 1 }));
        }
        if name == e.base@ {
            assert(base_at(new, name, p));
        }
    }
    assert forall|name: Seq<char>| want.dom().contains(name) implies #[trigger] base_map(new)[name]
        == want[name] by {
        assert(base_map(new).dom().contains(name));
        let i = choose|i: int| base_at(new, name, i);
        assert(base_at(new, name, i));
        lemma_base_map(new, i);
        if i != p {
            let k = if i < p { i } else { i - 1 };
            assert(new[i] == entries[k]);
            lemma_base_map(entries, k);
        }
    }
    assert(base_map(new) =~= want);
}

/// Of two affix tiers, exactly one comes first, and the order can be followed.
proof fn lemma_key_order(a: TierKey, b: TierKey, c: TierKey)
    ensures
        a == b || key_before(a, b) || key_before(b, a),
        !(key_before(a, b) && key_before(b, a)),
        !key_before(a, a),
        key_before(a, b) && key_before(b, c) ==> key_before(a, c),
{
    lemma_before_total(a.0, b.0);
    lemma_before_total(a.0, a.0);
    if before(a.0, b.0) && before(b.0, c.0) {
        lemma_before_trans(a.0, b.0, c.0);
    }
}

/// Changing the entry of an affix tier changes its tally and no other.
proof fn lemma_tier_update(entries: Seq<AffixTierSum>, p: int, e: AffixTierSum)
    requires
        tiers_sorted(entries),
        0 <= p < entries.len(),
        e.key() == entries[p].key(),
    ensures
        tiers_sorted(entries.update(p, e)),
        tier_map(entries.update(p, e)) == tier_map(entries).insert(e.key(), e.tally()),
{
    let new = entries.update(p, e);
    assert forall|i: int, j: int| 0 <= i < j < new.len() implies key_before(
        (#[trigger] new[i]).key(),
        (#[trigger] new[j]).key(),
    ) by {
        assert(new[i].key() == entries[i].key());
        assert(new[j].key() == entries[j].key());
    }
    let want = tier_map(entries).insert(e.key(), e.tally());
    assert forall|key: TierKey| tier_map(new).dom().contains(key) <==> want.dom().contains(key) by {
        if tier_map(new).dom().contains(key) {
            let i = choose|i: int| tier_at(new, key, i);
            assert(tier_at(entries, key, i));
        }
        if tier_map(entries).dom().contains(key) {
            let i = choose|i: int| tier_at(entries, key, i);
            assert(tier_at(new, key, i));
        }
        if key == e.key() {
            assert(tier_at(new, key, p));
        }
    }
    assert forall|key: TierKey| want.dom().contains(key) implies #[trigger] tier_map(new)[key]
        == want[key] by {
        assert(tier_map(new).dom().contains(key));
        let i = choose|i: int| tier_at(new, key, i);
        assert(tier_at(new, key, i));
        lemma_tier_map(new, i);
        lemma_tier_map(entries, i);
        if i != p {
            lemma_key_order(key, key, key);
            if i < p {
                assert(key_before(entries[i].key(), entries[p].key()));
            } else {
                assert(key_before(entries[p].key(), entries[i].key()));
            }
        }
    }
    assert(tier_map(new) =~= want);
}

/// Putting in an entry at its place in the order adds its tally and changes no other.
proof fn lemma_tier_insert(entries: Seq<AffixTierSum>, p: int, e: AffixTierSum)
    requires
        tiers_sorted(entries),
        0 <= p <= entries.len(),
        forall|i: int| 0 <= i < p ==> key_before((#[trigger] entries[i]).key(), e.key()),
        p < entries.len() ==> key_before(e.key(), entries[p].key()),
    ensures
        tiers_sorted(entries.insert(p, e)),
        !tier_map(entries).dom().contains(e.key()),
        tier_map(entries.insert(p, e)) == tier_map(entries).insert(e.key(), e.tally()),
{
    let new = entries.insert(p, e);
    assert forall|i: int| p <= i < entries.len() implies key_before(
        e.key(),
        (#[trigger] entries[i]).key(),
    ) by {
        if i > p {
            lemma_key_order(e.key(), entries[p].key(), entries[i].key());
        }
    }
    assert forall|i: int, j: int| 0 <= i < j < new.len() implies key_before(
        (#[trigger] new[i]).key(),
        (#[trigger] new[j]).key(),
    ) by {
        let a = if i < p { i } else { i - 1 };
        let b = if j < p { j } else { j - 1 };
        if i == p {
            assert(new[j] == entries[b]);
        } else if j == p {
            assert(new[i] == entries[a]);
        } else {
            assert(new[i] == entries[a]);
            assert(new[j] == entries[b]);
        }
    }
    lemma_key_order(e.key(), e.key(), e.key());
    if tier_map(entries).dom().contains(e.key()) {
        let i = choose|i: int| tier_at(entries, e.key(), i);
        assert(tier_at(entries, e.key(), i));
        assert(entries[i].key() == e.key());
    }
    let want = tier_map(entries).insert(e.key(), e.tally());
    assert forall|key: TierKey| tier_map(new).dom().contains(key) <==> want.dom().contains(key) by {
        if tier_map(new).dom().contains(key) {
            let i = choose|i: int| tier_at(new, key, i);
            assert(tier_at(new, key, i));
            if i != p {
                assert(tier_at(entries, key, if i < p { i } else { i - 1 }));
            }
        }
        if tier_map(entries).dom().contains(key) {
            let i = choose|i: int| tier_at(entries, key, i);
            assert(tier_at(entries, key, i));
            assert(tier_at(new, key, if i < p { i } else { i + 1 }));
        }
        if key == e.key() {
            assert(tier_at(new, key, p));
        }
    }
    assert forall|key: TierKey| want.dom().contains(key) implies #[trigger] tier_map(new)[key]
        == want[key] by {
        assert(tier_map(new).dom().contains(key));
        let i = choose|i: int| tier_at(new, key, i);
        assert(tier_at(new, key, i));
        lemma_tier_map(new, i);
        if i != p {
            let k = if i < p { i } else { i - 1 };
            assert(new[i] == entries[k]);
            lemma_tier_map(entries, k);
        }
    }
    assert(tier_map(new) =~= want);
}

/// Whether no entry counts more than `k`.
pub open spec fn counts_within(entries: Seq<AffixTierSum>, k: int) -> bool {
    forall|i: int| 0 <= i < entries.len() ==> (#[trigger] entries[i]).count <= k
}

impl AffixTierSum {
    /// One more affix, whose stats rolled the given values.
    fn count_in(&mut self, values: &Vec<Scalar>)
        requires
            old(self).count < u32::MAX,
        ensures
            final(self).affix_id == old(self).affix_id,
            final(self).tier == old(self).tier,
            final(self).count == old(self).count + 1,
            final(self).tally() == old(self).tally().with(values@),
    {
        let ghost start = self.rolls@;
        self.count = self.count + 1;
        while self.rolls.len() < values.len()
            invariant
                start.len() <= self.rolls.len(),
                self.rolls.len() <= values.len() || self.rolls.len() == start.len(),
                forall|i: int| 0 <= i < start.len() ==> self.rolls@[i] == start[i],
                forall|i: int|
                    start.len() <= i < self.rolls.len() ==> (#[trigger] self.rolls@[i]).tally()
                        == RollTally::empty(),
                self.affix_id == old(self).affix_id,
                self.tier == old(self).tier,
                self.count == old(self).count + 1,
            decreases values.len() - self.rolls.len(),
        {
            self.rolls.push(RollStats::empty());
        }
        let ghost grown = self.rolls@;
        for i in 0..values.len()
            invariant
                self.rolls.len() == grown.len(),
                values.len() <= self.rolls.len(),
                forall|k: int|
                    0 <= k < i ==> (#[trigger] self.rolls@[k]).tally() == grown[k].tally().with(
                        values@[k],
                    ),
                forall|k: int| i <= k < grown.len() ==> self.rolls@[k] == grown[k],
                self.affix_id == old(self).affix_id,
                self.tier == old(self).tier,
                self.count == old(self).count + 1,
        {
            self.rolls[i].observe(values[i]);
        }
        assert(self.tally().rolls =~= old(self).tally().with(values@).rolls);
    }
}

impl BaseSum {
    /// Nothing measured yet.
    fn empty(base: String) -> (r: BaseSum)
        ensures
            r.base == base,
            r.ttk_by_rarity.len() == 5,
            r.tally() == BaseTally::empty(),
    {
        let mut ttk_by_rarity: Vec<Vec<Scalar>> = Vec::new();
        for i in 0..5usize
            invariant
                ttk_by_rarity.len() == i,
                forall|k: int| 0 <= k < i ==> (#[trigger] ttk_by_rarity@[k])@ == Seq::<Scalar>::empty(),
        {
            ttk_by_rarity.push(Vec::new());
        }
        let r = BaseSum { base, dps: Vec::new(), ttk: Vec::new(), ttk_by_rarity };
        assert(r.tally().ttk_by_rarity =~= BaseTally::empty().ttk_by_rarity);
        r
    }

    /// One more drop. Only a positive time to kill counts.
    fn count_in(&mut self, dps: Scalar, ttk: Scalar, rarity: usize)
        requires
            rarity < 5,
            old(self).ttk_by_rarity.len() == 5,
        ensures
            final(self).base == old(self).base,
            final(self).ttk_by_rarity.len() == 5,
            final(self).tally() == old(self).tally().with(dps, ttk, rarity as int),
    {
        self.dps.push(dps);
        if ttk.is_positive() {
            self.ttk.push(ttk);
            self.ttk_by_rarity[rarity].push(ttk);
        }
        assert(self.tally().ttk_by_rarity =~= old(self).tally().with(
            dps,
            ttk,
            rarity as int,
        ).ttk_by_rarity);
    }
}

/// How many drops the first `n` entries hold.
pub open spec fn drops_of(entries: Seq<BaseSum>, n: int) -> int
    decreases n,
{
    if n <= 0 {
        0
    } else {
        drops_of(entries, n - 1) + entries[n - 1].dps.len()
    }
}

/// Changing one entry changes the sum by as much.
proof fn lemma_drops_update(entries: Seq<BaseSum>, p: int, e: BaseSum, n: int)
    requires
        0 <= p < entries.len(),
        0 <= n <= entries.len(),
    ensures
        drops_of(entries.update(p, e), n) == if p < n {
            drops_of(entries, n) - entries[p].dps.len() + e.dps.len()
        } else {
            drops_of(entries, n)
        },
    decreases n,
{
    if n > 0 {
        lemma_drops_update(entries, p, e, n - 1);
    }
}

/// Putting in an entry adds what it holds.
proof fn lemma_drops_insert(entries: Seq<BaseSum>, p: int, e: BaseSum, n: int)
    requires
        0 <= p <= entries.len(),
        0 <= n <= entries.len() + 1,
    ensures
        drops_of(entries.insert(p, e), n) == if p < n {
            drops_of(entries, n - 1) + e.dps.len()
        } else {
            drops_of(entries, n)
        },
    decreases n,
{
    if n > 0 {
        lemma_drops_insert(entries, p, e, n - 1);
    }
}

/// Counts in a drop of the given base.
fn record_base(
    entries: &mut Vec<BaseSum>,
    base: &String,
    dps: Scalar,
    ttk: Scalar,
    rarity: usize,
)
    requires
        bases_sorted(old(entries)@),
        forall|i: int| 0 <= i < old(entries).len() ==> (#[trigger] old(entries)@[i]).ttk_by_rarity.len() == 5,
        rarity < 5,
    ensures
        bases_sorted(final(entries)@),
        forall|i: int| 0 <= i < final(entries).len() ==> (#[trigger] final(entries)@[i]).ttk_by_rarity.len() == 5,
        drops_of(final(entries)@, final(entries).len() as int) == drops_of(
            old(entries)@,
            old(entries).len() as int,
        ) + 1,
        base_map(final(entries)@) == with_drop(
            base_map(old(entries)@),
            base@,
            dps,
            ttk,
            rarity as int,
        ),
{
    let ghost start = entries@;
    let mut p: usize = 0;
    while p < entries.len() && comes_before(&entries[p].base, base)
        invariant
            p <= entries.len(),
            entries@ == start,
            forall|i: int| 0 <= i < p ==> before((#[trigger] start[i]).base@, base@),
        decreases entries.len() - p,
    {
        p = p + 1;
    }
    proof {
        if p < start.len() {
            lemma_before_total(start[p as int].base@, base@);
        }
    }
    if p < entries.len() && entries[p].base == *base {
        proof {
            lemma_base_map(start, p as int);
        }
        entries[p].count_in(dps, ttk, rarity);
        proof {
            let e = entries@[p as int];
            assert(entries@ =~= start.update(p as int, e));
            lemma_base_update(start, p as int, e);
            lemma_drops_update(start, p as int, e, start.len() as int);
            assert(e.dps.len() == e.tally().dps.len());
        }
    } else {
        let mut e = BaseSum::empty(base.clone());
        e.count_in(dps, ttk, rarity);
        proof {
            lemma_base_insert(start, p as int, e);
            lemma_drops_insert(start, p as int, e, (start.len() + 1) as int);
            assert(e.dps.len() == e.tally().dps.len());
        }
        entries.insert(p, e);
    }
}

/// Counts in an affix, whose stats rolled the given values.
fn record_affix(entries: &mut Vec<AffixTierSum>, affix: &RolledAffix, values: &Vec<Scalar>)
    requires
        tiers_sorted(old(entries)@),
        counts_within(old(entries)@, u32::MAX - 1),
    ensures
        tiers_sorted(final(entries)@),
        forall|k: int| 0 <= k && #[trigger] counts_within(old(entries)@, k) ==> counts_within(
            final(entries)@,
            k + 1,
        ),
        tier_map(final(entries)@) == with_affix(
            tier_map(old(entries)@),
            (affix.affix_id@, affix.tier),
            values@,
        ),
{
    let ghost start = entries@;
    let ghost key = (affix.affix_id@, affix.tier);
    let mut p: usize = 0;
    while p < entries.len() && (comes_before(&entries[p].affix_id, &affix.affix_id) || (
    entries[p].affix_id == affix.affix_id && entries[p].tier < affix.tier))
        invariant
            p <= entries.len(),
            entries@ == start,
            key == (affix.affix_id@, affix.tier),
            forall|i: int| 0 <= i < p ==> key_before((#[trigger] start[i]).key(), key),
        decreases entries.len() - p,
    {
        p = p + 1;
    }
    proof {
        if p < start.len() {
            lemma_key_order(start[p as int].key(), key, key);
        }
    }
    if p < entries.len() && entries[p].affix_id == affix.affix_id && entries[p].tier == affix.tier {
        proof {
            lemma_tier_map(start, p as int);
        }
        entries[p].count_in(values);
        proof {
            let e = entries@[p as int];
            assert(entries@ =~= start.update(p as int, e));
            lemma_tier_update(start, p as int, e);
        }
    } else {
        let mut e = AffixTierSum {
            affix_id: affix.affix_id.clone(),
            tier: affix.tier,
            count: 0,
            rolls: Vec::new(),
        };
        assert(e.tally().rolls =~= Seq::empty());
        e.count_in(values);
        proof {
            lemma_tier_insert(start, p as int, e);
        }
        entries.insert(p, e);
    }
}

/// Counts in some affixes, whose values stand from `first` on in the list.
fn record_affixes(
    entries: &mut Vec<AffixTierSum>,
    affixes: &Vec<RolledAffix>,
    values: &Vec<Vec<Scalar>>,
    first: usize,
)
    requires
        tiers_sorted(old(entries)@),
        affixes.len() <= u32::MAX,
        counts_within(old(entries)@, u32::MAX - affixes.len()),
        first + affixes.len() <= values.len(),
    ensures
        tiers_sorted(final(entries)@),
        forall|k: int| 0 <= k && #[trigger] counts_within(old(entries)@, k) ==> counts_within(
            final(entries)@,
            k + affixes.len(),
        ),
        tier_map(final(entries)@) == with_affixes(
            tier_map(old(entries)@),
            affixes@,
            values@,
            first as int,
            affixes.len() as int,
        ),
{
    for i in 0..affixes.len()
        invariant
            affixes.len() <= u32::MAX,
            first + affixes.len() <= values.len(),
            tiers_sorted(entries@),
            counts_within(entries@, u32::MAX - affixes.len() + i),
            forall|k: int| 0 <= k && #[trigger] counts_within(old(entries)@, k) ==> counts_within(
                entries@,
                k + i,
            ),
            tier_map(entries@) == with_affixes(
                tier_map(old(entries)@),
                affixes@,
                values@,
                first as int,
                i as int,
            ),
    {
        let ghost before = entries@;
        record_affix(entries, &affixes[i], &values[first + i]);
        assert forall|k: int| 0 <= k && #[trigger] counts_within(
            old(entries)@,
            k,
        ) implies counts_within(entries@, k + i + 1) by {
            assert(counts_within(before, k + i));
        }
    }
}

/// How many drops the rarities count together.
pub open spec fn drops_by_rarity(rarities: Seq<RaritySum>) -> int {
    rarities[0].count + rarities[1].count + rarities[2].count + rarities[3].count
        + rarities[4].count
}

impl Summary {
    /// The tables are in order and each accounts for every drop.
    pub open spec fn wf(self) -> bool {
        &&& self.rarities.len() == 5
        &&& drops_by_rarity(self.rarities@) == self.drops
        &&& bases_sorted(self.by_base@)
        &&& forall|i: int|
            0 <= i < self.by_base.len() ==> (
            #[trigger] self.by_base@[i]).ttk_by_rarity.len() == 5
        &&& drops_of(self.by_base@, self.by_base.len() as int) == self.drops
        &&& tiers_sorted(self.by_affix_tier@)
    }

    /// Whether the counters have room for one more item.
    pub open spec fn has_room(self, item: ItemInstance) -> bool {
        let n = item.prefixes.len() + item.suffixes.len();
        &&& self.drops < u32::MAX
        &&& self.rarities@[item.rarity.rank()].sum_affixes + n <= u64::MAX
        &&& n <= u32::MAX
        &&& counts_within(self.by_affix_tier@, u32::MAX - n)
    }

    /// Nothing recorded yet.
    pub fn new() -> (r: Summary)
        ensures
            r.wf(),
            r.drops == 0,
            r.rarities@ == Seq::new(5, |i: int| RaritySum { count: 0, sum_affixes: 0 }),
            base_map(r.by_base@) == Map::<Seq<char>, BaseTally>::empty(),
            tier_map(r.by_affix_tier@) == Map::<TierKey, AffixTally>::empty(),
    {
        let mut rarities: Vec<RaritySum> = Vec::new();
        for i in 0..5usize
            invariant
                rarities.len() == i,
                forall|k: int| 0 <= k < i ==> rarities@[k] == (RaritySum { count: 0, sum_affixes: 0 }),
        {
            rarities.push(RaritySum { count: 0, sum_affixes: 0 });
        }
        let r = Summary { drops: 0, rarities, by_base: Vec::new(), by_affix_tier: Vec::new() };
        assert(base_map(r.by_base@) =~= Map::<Seq<char>, BaseTally>::empty());
        assert(tier_map(r.by_affix_tier@) =~= Map::<TierKey, AffixTally>::empty());
        assert(drops_of(r.by_base@, 0) == 0);
        r
    }

    /// Records a drop: its damage per second, its time to kill and, for each of its
    /// prefixes and then for each of its suffixes, the values that were rolled.
    pub fn record(
        &mut self,
        item: &ItemInstance,
        dps: Scalar,
        ttk: Scalar,
        values: &Vec<Vec<Scalar>>,
    )
        requires
            old(self).wf(),
            old(self).has_room(*item),
            values.len() == item.prefixes.len() + item.suffixes.len(),
        ensures
            final(self).wf(),
            final(self).drops == old(self).drops + 1,
            final(self).rarities@ == old(self).rarities@.update(
                item.rarity.rank(),
                (RaritySum {
                    count: (old(self).rarities@[item.rarity.rank()].count + 1) as u32,
                    sum_affixes: (old(self).rarities@[item.rarity.rank()].sum_affixes
                        + values.len()) as u64,
                }),
            ),
            base_map(final(self).by_base@) == with_drop(
                base_map(old(self).by_base@),
                item.base@,
                dps,
                ttk,
                item.rarity.rank(),
            ),
            tier_map(final(self).by_affix_tier@) == with_affixes(
                with_affixes(
                    tier_map(old(self).by_affix_tier@),
                    item.prefixes@,
                    values@,
                    0,
                    item.prefixes.len() as int,
                ),
                item.suffixes@,
                values@,
                item.prefixes.len() as int,
                item.suffixes.len() as int,
            ),
    {
        let rarity: usize = item.rarity.index();
        let sofar: RaritySum = self.rarities[rarity];
        self.drops = self.drops + 1;
        self.rarities.set(
            rarity,
            RaritySum {
                count: sofar.count + 1,
                sum_affixes: sofar.sum_affixes + values.len() as u64,
            },
        );
        record_base(&mut self.by_base, &item.base, dps, ttk, rarity);
        let ghost n = values.len() as int;
        record_affixes(&mut self.by_affix_tier, &item.prefixes, values, 0);
        assert(counts_within(
            self.by_affix_tier@,
            u32::MAX - n + item.prefixes.len(),
        ));
        record_affixes(&mut self.by_affix_tier, &item.suffixes, values, item.prefixes.len());
    }
}

/// The last affix of the given id, which is the one that counts.
pub open spec fn is_last_affix(affixes: Seq<Affix>, id: Seq<char>, i: int) -> bool {
    &&& 0 <= i < affixes.len()
    &&& affixes[i].id@ == id
    &&& forall|k: int| i < k < affixes.len() ==> (#[trigger] affixes[k]).id@ != id
}

/// The first tier of an affix with the given number.
pub open spec fn is_first_tier(affix: Affix, tier: u8, j: int) -> bool {
    &&& 0 <= j < affix.tiers.len()
    &&& affix.tiers@[j].tier == tier
    &&& forall|k: int| 0 <= k < j ==> (#[trigger] affix.tiers@[k]).tier != tier
}

/// The range that an affix tier rolls its first stat in; from zero to zero where there is
/// none.
pub open spec fn is_range(
    affixes: Seq<Affix>,
    id: Seq<char>,
    tier: u8,
    range: (Scalar, Scalar),
) -> bool {
    let zero = Scalar { bits: 0 };
    ||| exists|i: int, j: int|
        #![trigger is_last_affix(affixes, id, i), is_first_tier(affixes[i], tier, j)]
        is_last_affix(affixes, id, i) && is_first_tier(affixes[i], tier, j) && (if
        affixes[i].tiers@[j].stats.len() > 0 {
            range == (affixes[i].tiers@[j].stats@[0].min, affixes[i].tiers@[j].stats@[0].max)
        } else {
            range == (zero, zero)
        })
    ||| range == (zero, zero) && forall|i: int, j: int|
        !(#[trigger] is_last_affix(affixes, id, i) && #[trigger] is_first_tier(
            affixes[i],
            tier,
            j,
        ))
}

/// The range that an affix tier rolls its first stat in. Of several affixes with the same
/// id the last counts.
pub fn lookup_range(affixes: &[Affix], affix_id: &String, tier: u8) -> (range: (Scalar, Scalar))
    ensures
        is_range(affixes@, affix_id@, tier, range),
{
    let mut i: usize = affixes.len();
    while i > 0
        invariant
            i <= affixes.len(),
            forall|k: int| i <= k < affixes.len() ==> (#[trigger] affixes@[k]).id@ != affix_id@,
        decreases i,
    {
        i = i - 1;
        if affixes[i].id == *affix_id {
            assert(is_last_affix(affixes@, affix_id@, i as int));
            return tier_range(affixes, affix_id, i, tier);
        }
    }
    (Scalar::zero(), Scalar::zero())
}

/// The range of the first stat of a tier of the given affix.
fn tier_range(affixes: &[Affix], affix_id: &String, i: usize, tier: u8) -> (range: (
    Scalar,
    Scalar,
))
    requires
        is_last_affix(affixes@, affix_id@, i as int),
    ensures
        is_range(affixes@, affix_id@, tier, range),
{
    let affix: &Affix = &affixes[i];
    for j in 0..affix.tiers.len()
        invariant
            is_last_affix(affixes@, affix_id@, i as int),
            *affix == affixes@[i as int],
            forall|k: int| 0 <= k < j ==> (#[trigger] affix.tiers@[k]).tier != tier,
    {
        if affix.tiers[j].tier == tier {
            assert(is_first_tier(affixes@[i as int], tier, j as int));
            let stats = &affix.tiers[j].stats;
            if stats.len() > 0 {
                return (stats[0].min, stats[0].max);
            }
            return (Scalar::zero(), Scalar::zero());
        }
    }
    assert forall|a: int, j: int|
        !(#[trigger] is_last_affix(affixes@, affix_id@, a) && #[trigger] is_first_tier(
            affixes@[a],
            tier,
            j,
        )) by {
        if is_last_affix(affixes@, affix_id@, a) && is_first_tier(affixes@[a], tier, j) {
            if a < i {
                assert(affixes@[i as int].id@ != affix_id@);
            } else if i < a {
                assert(affixes@[a].id@ != affix_id@);
            }
        }
    }
    (Scalar::zero(), Scalar::zero())
}

/// What one more drop adds to the tally of its base: its damage in any case; its time to
/// kill only where that is positive, and then in the list of its own rarity and no other.
pub proof fn law_drops_are_tallied(t: BaseTally, dps: Scalar, ttk: Scalar, rarity: int, other: int)
    requires
        t.ttk_by_rarity.len() == 5,
        0 <= rarity < 5,
        0 <= other < 5,
    ensures
        ({
            let after = t.with(dps, ttk, rarity);
            let kills = !ttk.is_nan() && ttk.value() > 0;
            &&& after.dps == t.dps.push(dps)
            &&& kills ==> after.ttk == t.ttk.push(ttk)
            &&& !kills ==> after.ttk == t.ttk
            &&& after.ttk_by_rarity.len() == 5
            &&& kills && other == rarity ==> after.ttk_by_rarity[other]
                == t.ttk_by_rarity[other].push(ttk)
            &&& !kills || other != rarity ==> after.ttk_by_rarity[other]
                == t.ttk_by_rarity[other]
        }),
{
}

/// A drop changes the tally of its own base, starting from nothing if it is the first of
/// that base, and no other.
pub proof fn law_drops_touch_one_base(
    tallies: Map<Seq<char>, BaseTally>,
    base: Seq<char>,
    dps: Scalar,
    ttk: Scalar,
    rarity: int,
    other: Seq<char>,
)
    ensures
        ({
            let after = with_drop(tallies, base, dps, ttk, rarity);
            &&& after.dom().contains(base)
            &&& tallies.dom().contains(base) ==> after[base] == tallies[base].with(
                dps,
                ttk,
                rarity,
            )
            &&& !tallies.dom().contains(base) ==> after[base].dps == seq![dps]
            &&& other != base ==> (after.dom().contains(other) <==> tallies.dom().contains(other))
                && (tallies.dom().contains(other) ==> after[other] == tallies[other])
        }),
{
    assert(Seq::<Scalar>::empty().push(dps) =~= seq![dps]);
}

/// The extremes of what was rolled: one more value is kept, and the extremes enclose both
/// it and what they enclosed before.
pub proof fn law_extremes_enclose_the_values(t: RollTally, value: Scalar)
    requires
        !value.is_nan(),
        !t.min.is_nan(),
        !t.max.is_nan(),
    ensures
        ({
            let after = t.with(value);
            &&& after.values == t.values.push(value)
            &&& after.min.value() <= value.value() <= after.max.value()
            &&& after.min.value() <= t.min.value()
            &&& after.max.value() >= t.max.value()
            &&& after.min == value || after.min == t.min
            &&& after.max == value || after.max == t.max
        }),
{
}

/// What one more affix adds to the tally of its tier: it counts once, and each of its values
/// goes to the tally of its own stat, which starts from nothing if it is the first there.
pub proof fn law_affixes_are_tallied(t: AffixTally, values: Seq<Scalar>, i: int)
    ensures
        ({
            let after = t.with(values);
            &&& after.count == t.count + 1
            &&& after.rolls.len() >= t.rolls.len()
            &&& after.rolls.len() >= values.len()
            &&& after.rolls.len() == t.rolls.len() || after.rolls.len() == values.len()
            &&& 0 <= i < values.len() && i < t.rolls.len() ==> after.rolls[i] == t.rolls[i].with(
                values[i],
            )
            &&& t.rolls.len() <= i < values.len() ==> after.rolls[i].values == seq![values[i]]
            &&& values.len() <= i < t.rolls.len() ==> after.rolls[i] == t.rolls[i]
        }),
{
    if t.rolls.len() <= i < values.len() {
        assert(Seq::<Scalar>::empty().push(values[i]) =~= seq![values[i]]);
    }
}

/// How often an affix tier was recorded.
pub open spec fn recorded(tallies: Map<TierKey, AffixTally>, key: TierKey) -> int {
    if tallies.dom().contains(key) {
        tallies[key].count as int
    } else {
        0
    }
}

/// Every affix of an item is counted, once: the count of each affix tier grows by the number
/// of affixes on the item that are of this tier.
pub proof fn law_every_affix_is_counted(
    tallies: Map<TierKey, AffixTally>,
    affixes: Seq<RolledAffix>,
    values: Seq<Vec<Scalar>>,
    offset: int,
    n: int,
    key: TierKey,
)
    requires
        0 <= n <= affixes.len(),
    ensures
        recorded(with_affixes(tallies, affixes, values, offset, n), key) == recorded(tallies, key)
            + affixes.take(n).filter(
            |a: RolledAffix| a.affix_id@ == key.0 && a.tier == key.1,
        ).len(),
    decreases n,
{
    reveal(Seq::filter);
    if n > 0 {
        law_every_affix_is_counted(tallies, affixes, values, offset, n - 1, key);
        assert(affixes.take(n).drop_last() =~= affixes.take(n - 1));
    }
}

/// The range that is looked up is that of the first stat of the first tier of that number,
/// in the last affix of that id.
pub proof fn law_ranges_are_looked_up(
    affixes: Seq<Affix>,
    id: Seq<char>,
    tier: u8,
    range: (Scalar, Scalar),
    i: int,
    j: int,
)
    requires
        is_range(affixes, id, tier, range),
        0 <= i < affixes.len(),
        affixes[i].id@ == id,
        forall|k: int| i < k < affixes.len() ==> (#[trigger] affixes[k]).id@ != id,
        0 <= j < affixes[i].tiers@.len(),
        affixes[i].tiers@[j].tier == tier,
        forall|k: int| 0 <= k < j ==> (#[trigger] affixes[i].tiers@[k]).tier != tier,
    ensures
        affixes[i].tiers@[j].stats@.len() > 0 ==> range == (
            affixes[i].tiers@[j].stats@[0].min,
            affixes[i].tiers@[j].stats@[0].max,
        ),
        affixes[i].tiers@[j].stats@.len() == 0 ==> range.0.bits == 0 && range.1.bits == 0,
{
    assert(is_last_affix(affixes, id, i));
    assert(is_first_tier(affixes[i], tier, j));
    if exists|a: int, b: int|
        #![trigger is_last_affix(affixes, id, a), is_first_tier(affixes[a], tier, b)]
        is_last_affix(affixes, id, a) && is_first_tier(affixes[a], tier, b) && (if
        affixes[a].tiers@[b].stats.len() > 0 {
            range == (affixes[a].tiers@[b].stats@[0].min, affixes[a].tiers@[b].stats@[0].max)
        } else {
            range == (Scalar { bits: 0 }, Scalar { bits: 0 })
        }) {
        let (a, b) = choose|a: int, b: int|
            #![trigger is_last_affix(affixes, id, a), is_first_tier(affixes[a], tier, b)]
            is_last_affix(affixes, id, a) && is_first_tier(affixes[a], tier, b) && (if
            affixes[a].tiers@[b].stats.len() > 0 {
                range == (affixes[a].tiers@[b].stats@[0].min, affixes[a].tiers@[b].stats@[0].max)
            } else {
                range == (Scalar { bits: 0 }, Scalar { bits: 0 })
            });
        if a < i {
            assert(affixes[i].id@ != id);
        } else if i < a {
            assert(affixes[a].id@ != id);
        }
        if b < j {
            assert(affixes[i].tiers@[b].tier != tier);
        } else if j < b {
            assert(affixes[i].tiers@[j].tier != tier);
        }
    }
}

/// The tables of a summary account for every drop: the counts of the rarities come to the
/// number of drops, and so do the drops of the bases. The bases are in the order of their
/// names and the affix tiers in that of their ids and numbers, each of them once; and what
/// a table says of a name is what its entry holds.
pub proof fn law_tables_account_for_every_drop(s: Summary, i: int, j: int)
    requires
        s.wf(),
    ensures
        s.rarities@.len() == 5,
        s.rarities@[0].count + s.rarities@[1].count + s.rarities@[2].count + s.rarities@[3].count
            + s.rarities@[4].count == s.drops,
        drops_of(s.by_base@, s.by_base@.len() as int) == s.drops,
        0 <= i < j < s.by_base@.len() ==> before(s.by_base@[i].base@, s.by_base@[j].base@),
        0 <= i < j < s.by_affix_tier@.len() ==> {
            let (a, b) = (s.by_affix_tier@[i], s.by_affix_tier@[j]);
            before(a.affix_id@, b.affix_id@) || (a.affix_id@ == b.affix_id@ && a.tier < b.tier)
        },
        0 <= i < s.by_base@.len() ==> {
            let e = s.by_base@[i];
            &&& base_map(s.by_base@).dom().contains(e.base@)
            &&& base_map(s.by_base@)[e.base@].dps == e.dps@
            &&& base_map(s.by_base@)[e.base@].ttk == e.ttk@
        },
        0 <= i < s.by_affix_tier@.len() ==> {
            let e = s.by_affix_tier@[i];
            &&& tier_map(s.by_affix_tier@).dom().contains((e.affix_id@, e.tier))
            &&& tier_map(s.by_affix_tier@)[(e.affix_id@, e.tier)].count == e.count
        },
{
    if 0 <= i < s.by_base@.len() {
        lemma_base_map(s.by_base@, i);
    }
    if 0 <= i < s.by_affix_tier@.len() {
        lemma_tier_map(s.by_affix_tier@, i);
    }
    if 0 <= i < j < s.by_affix_tier@.len() {
        assert(key_before(s.by_affix_tier@[i].key(), s.by_affix_tier@[j].key()));
    }
}

} // verus!
