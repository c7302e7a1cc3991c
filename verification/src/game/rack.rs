//! The weapon rack: one weapon per archetype, one of them active, and the inventory that
//! the others fall back into.

use vstd::prelude::*;

use crate::game::entity::{
    fire_profile, profile_of, Appraisal, Content, EquippedWeapon, FireProfile,
};
use crate::game::tunables::Tunables;
use crate::game::world::{one_per_archetype, World};
use crate::rules::item::{BaseItem, ItemInstance, Rarity};
use crate::text::same_text;

verus! {

/// The part of the world that the rack's operations change.
pub struct Rack {
    pub loadout: Seq<EquippedWeapon>,
    pub active: int,
    pub inventory: Seq<ItemInstance>,
    pub tunables: Tunables,
}

/// Whether the `k`-th base is the first with the given id.
pub open spec fn first_base(bases: Seq<BaseItem>, id: Seq<char>, k: int) -> bool {
    &&& 0 <= k < bases.len()
    &&& bases[k].id@ == id
    &&& forall|j: int| 0 <= j < k ==> (#[trigger] bases[j]).id@ != id
}

/// Whether some base has the given id.
pub open spec fn has_base(bases: Seq<BaseItem>, id: Seq<char>) -> bool {
    exists|k: int| first_base(bases, id, k)
}

/// The first base with the given id.
pub open spec fn base_of(bases: Seq<BaseItem>, id: Seq<char>) -> BaseItem {
    bases[choose|k: int| first_base(bases, id, k)]
}

/// The first base with an id is the one that comes before all others.
pub proof fn lemma_base_of(bases: Seq<BaseItem>, id: Seq<char>, k: int)
    requires
        first_base(bases, id, k),
    ensures
        has_base(bases, id),
        base_of(bases, id) == bases[k],
{
    let c = choose|c: int| first_base(bases, id, c);
    assert(first_base(bases, id, c));
    if c < k {
        assert(bases[c].id@ != id);
    } else if k < c {
        assert(bases[k].id@ != id);
    }
}

/// The weapon base with the given id, if there is one.
pub open spec fn weapon_base(bases: Seq<BaseItem>, id: Seq<char>) -> Option<BaseItem> {
    if has_base(bases, id) && base_of(bases, id).slot@ == "weapon"@ {
        Some(base_of(bases, id))
    } else {
        None
    }
}

/// An item as it stands on the rack.
pub open spec fn racked(item: ItemInstance, a: Appraisal, base: BaseItem) -> EquippedWeapon {
    EquippedWeapon {
        item,
        weapon: a.weapon,
        rank: a.rank,
        name: base.name,
        profile: profile_of(base.id@),
    }
}

/// The knobs once a weapon is active: its damage, rate and crit numbers, and those of its
/// fire pattern. A weapon without a fire rate leaves the rate as it was.
pub open spec fn driven_by(t: Tunables, w: EquippedWeapon) -> Tunables {
    let t1 = Tunables {
        bullet_damage: w.weapon.damage_per_shot,
        fire_rate: if !w.weapon.fire_rate.is_nan() && w.weapon.fire_rate.value() > 0 {
            w.weapon.fire_rate
        } else {
            t.fire_rate
        },
        crit_chance: w.weapon.crit_chance,
        crit_multiplier: w.weapon.crit_multiplier,
        ..t
    };
    match w.profile {
        FireProfile::Single => t1,
        FireProfile::Spread { pellets, spread } => Tunables {
            spread_pellets: pellets,
            spread_angle: spread,
            ..t1
        },
        FireProfile::Explosive { radius, speed_factor } => Tunables {
            blast_radius: radius,
            blast_speed_factor: speed_factor,
            ..t1
        },
    }
}

impl Rack {
    /// Whether the slot holds the first weapon of the given archetype.
    pub open spec fn holds(self, base: Seq<char>, slot: int) -> bool {
        &&& 0 <= slot < self.loadout.len()
        &&& self.loadout[slot].item.base@ == base
        &&& forall|j: int| 0 <= j < slot ==> (#[trigger] self.loadout[j]).item.base@ != base
    }

    /// Whether some slot holds a weapon of the given archetype.
    pub open spec fn has(self, base: Seq<char>) -> bool {
        exists|s: int| self.holds(base, s)
    }

    /// The slot of the given archetype; where there is none, the next free one.
    pub open spec fn slot_for(self, base: Seq<char>) -> int {
        if self.has(base) {
            choose|s: int| self.holds(base, s)
        } else {
            self.loadout.len() as int
        }
    }

    /// The rack with the given slot active. Slots that do not exist change nothing.
    pub open spec fn activated(self, slot: int) -> Rack {
        if 0 <= slot < self.loadout.len() {
            Rack { active: slot, tunables: driven_by(self.tunables, self.loadout[slot]), ..self }
        } else {
            self
        }
    }

    /// The rack with a weapon in its archetype's slot, whatever was there.
    pub open spec fn placed(self, w: EquippedWeapon) -> Rack {
        let slot = self.slot_for(w.item.base@);
        Rack {
            loadout: if slot < self.loadout.len() {
                self.loadout.update(slot, w)
            } else {
                self.loadout.push(w)
            },
            ..self
        }
    }

    /// The rack with a weapon put in its archetype's slot, and the weapon that it
    /// displaces, if any, back in the inventory.
    pub open spec fn swapped(self, w: EquippedWeapon) -> Rack {
        let slot = self.slot_for(w.item.base@);
        let r = self.placed(w);
        if slot < self.loadout.len() {
            Rack { inventory: self.inventory.push(self.loadout[slot].item), ..r }
        } else {
            r
        }
    }

    /// Arming a weapon: its archetype's slot keeps the better of it and what is already
    /// there, and becomes active.
    pub open spec fn armed(self, w: EquippedWeapon) -> Rack {
        let slot = self.slot_for(w.item.base@);
        let r = if slot < self.loadout.len() && !self.loadout[slot].rank.less_than(w.rank) {
            self
        } else {
            self.placed(w)
        };
        r.activated(slot)
    }

    /// Whether a weapon that was picked up stays out of the rack: its archetype's slot
    /// holds one that is at least as good.
    pub open spec fn outclassed(self, w: EquippedWeapon) -> bool {
        let slot = self.slot_for(w.item.base@);
        slot < self.loadout.len() && !w.rank.is_nan() && !self.loadout[slot].rank.is_nan()
            && w.rank.value() <= self.loadout[slot].rank.value()
    }

    /// Whether a weapon that goes onto the rack becomes active: nothing is active yet, it
    /// is better than the active weapon, or it takes that weapon's slot.
    pub open spec fn takes_over(self, w: EquippedWeapon) -> bool {
        self.active >= self.loadout.len() || self.loadout[self.active].rank.less_than(w.rank)
            || self.slot_for(w.item.base@) == self.active
    }

    /// Picking a weapon up, and whether it became active.
    pub open spec fn acquired(self, w: EquippedWeapon) -> (Rack, bool) {
        if self.outclassed(w) {
            (Rack { inventory: self.inventory.push(w.item), ..self }, false)
        } else if self.takes_over(w) {
            (self.swapped(w).activated(self.slot_for(w.item.base@)), true)
        } else {
            (self.swapped(w), false)
        }
    }

    /// Whether the rack is as it should be.
    pub open spec fn wf(self) -> bool {
        &&& one_per_archetype(self.loadout)
        &&& self.loadout.len() == 0 ==> self.active == 0
        &&& self.loadout.len() > 0 ==> 0 <= self.active < self.loadout.len()
    }
}

/// Putting a weapon in its archetype's slot keeps one weapon per archetype.
proof fn lemma_placed(r: Rack, w: EquippedWeapon)
    requires
        one_per_archetype(r.loadout),
    ensures
        one_per_archetype(r.placed(w).loadout),
        0 <= r.slot_for(w.item.base@) < r.placed(w).loadout.len(),
        r.placed(w).loadout[r.slot_for(w.item.base@)] == w,
        r.placed(w).loadout.len() >= r.loadout.len(),
{
    let base = w.item.base@;
    let slot = r.slot_for(base);
    if r.has(base) {
        assert(r.holds(base, slot));
    } else {
        assert forall|i: int| 0 <= i < r.loadout.len() implies (#[trigger] r.loadout[i]).item.base@
            != base by {
            if r.loadout[i].item.base@ == base {
                lemma_has(r, base, i);
            }
        }
    }
}

/// A slot of the given archetype makes for a first one.
proof fn lemma_has(r: Rack, base: Seq<char>, i: int)
    requires
        0 <= i < r.loadout.len(),
        r.loadout[i].item.base@ == base,
    ensures
        r.has(base),
    decreases i,
{
    if exists|j: int| 0 <= j < i && (#[trigger] r.loadout[j]).item.base@ == base {
        let j = choose|j: int| 0 <= j < i && (#[trigger] r.loadout[j]).item.base@ == base;
        lemma_has(r, base, j);
    } else {
        assert(r.holds(base, i));
    }
}

/// There is one first slot of an archetype.
pub proof fn lemma_slot_for(r: Rack, base: Seq<char>, s: int)
    requires
        r.holds(base, s),
    ensures
        r.slot_for(base) == s,
{
    let c = choose|c: int| r.holds(base, c);
    assert(r.holds(base, c));
    if c < s {
        assert(r.loadout[c].item.base@ != base);
    } else if s < c {
        assert(r.loadout[s].item.base@ != base);
    }
}

/// Finds the weapon base with the given id.
pub fn find_weapon_base<'a>(bases: &'a [BaseItem], id: &str) -> (base: Option<&'a BaseItem>)
    ensures
        match base {
            None => weapon_base(bases@, id@) is None,
            Some(b) => weapon_base(bases@, id@) == Some(*b),
        },
{
    for k in 0..bases.len()
        invariant
            forall|j: int| 0 <= j < k ==> (#[trigger] bases@[j]).id@ != id@,
    {
        if same_text(bases[k].id.as_str(), id) {
            proof {
                lemma_base_of(bases@, id@, k as int);
            }
            if same_text(bases[k].slot.as_str(), "weapon") {
                return Some(&bases[k]);
            }
            return None;
        }
    }
    None
}

/// The slot `dir` steps on from `from`, going round a rack of `n` slots.
fn wrap_around(from: usize, dir: i32, n: usize) -> (to: usize)
    requires
        from < n,
    ensures
        to == (from + dir) % (n as int),
{
    let forward: u64 = if dir >= 0 {
        dir as u64 % n as u64
    } else {
        let back: u64 = (-(dir as i64 + 1)) as u64;
        n as u64 - 1 - back % n as u64
    };
    let sum: u128 = from as u128 + forward as u128;
    let to: u128 = if sum >= n as u128 { sum - n as u128 } else { sum };
    proof {
        let m = n as int;
        let q = if dir >= 0 {
            dir as int / m
        } else {
            -1 - (-(dir + 1)) / m
        };
        if dir >= 0 {
            vstd::arithmetic::div_mod::lemma_fundamental_div_mod(dir as int, m);
        } else {
            let back = -(dir + 1);
            vstd::arithmetic::div_mod::lemma_fundamental_div_mod(back, m);
            assert(m * (-1 - back / m) == -m - m * (back / m)) by (nonlinear_arith);
        }
        assert(dir == m * q + forward);
        let turns = if sum >= n {
            q + 1
        } else {
            q
        };
        assert(m * (q + 1) == m * q + m) by (nonlinear_arith);
        assert(from + dir == m * turns + to);
        vstd::arithmetic::div_mod::lemma_fundamental_div_mod_converse(
            from + dir,
            m,
            turns,
            to as int,
        );
    }
    to as usize
}

/// An item of the given base with nothing on it: what a starting weapon is.
pub open spec fn is_stock(item: ItemInstance, base: Seq<char>) -> bool {
    &&& item.base@ == base
    &&& item.ilvl == 1
    &&& item.rarity == Rarity::Basic
    &&& item.seed == 0
    &&& item.prefixes@.len() == 0
    &&& item.suffixes@.len() == 0
    &&& item.upgrade_tier == 0
    &&& item.attached@.len() == 0
}

/// A fresh, zero-affix instance of a base.
pub fn stock_item(base_id: &str) -> (item: ItemInstance)
    ensures
        is_stock(item, base_id@),
{
    ItemInstance {
        base: base_id.to_owned(),
        ilvl: 1,
        rarity: Rarity::Basic,
        seed: 0,
        prefixes: Vec::new(),
        suffixes: Vec::new(),
        upgrade_tier: 0,
        attached: Vec::new(),
    }
}

impl World {
    /// The part of the world that the rack's operations change.
    pub open spec fn rack(self) -> Rack {
        Rack {
            loadout: self.loadout@,
            active: self.active as int,
            inventory: self.inventory@,
            tunables: self.tunables,
        }
    }

    /// Whether this world differs from the other in what the rack's operations change, at
    /// most.
    pub open spec fn same_but_rack(self, other: World) -> bool {
        self == (World {
            loadout: self.loadout,
            active: self.active,
            inventory: self.inventory,
            tunables: self.tunables,
            ..other
        })
    }

    /// The active weapon, or `None` when the rack is empty (nothing armed yet).
    pub fn equipped(&self) -> (w: Option<&EquippedWeapon>)
        ensures
            match w {
                None => self.active >= self.loadout@.len(),
                Some(w) => self.active < self.loadout@.len() && *w == self.loadout@[self.active as int],
            },
    {
        if self.active < self.loadout.len() {
            Some(&self.loadout[self.active])
        } else {
            None
        }
    }

    /// The whole switchable weapon rack, in acquisition order.
    pub fn loadout(&self) -> (l: &[EquippedWeapon])
        ensures
            l@ == self.loadout@,
    {
        self.loadout.as_slice()
    }

    /// Index of the active weapon within the rack.
    pub fn active_slot(&self) -> (i: usize)
        ensures
            i == self.active,
    {
        self.active
    }

    /// An item as it goes onto the rack, or the item back if it is no weapon — armor can
    /// never enter the weapon rack.
    fn build_equipped(item: ItemInstance, a: &Appraisal, content: &Content) -> (r: Result<
        EquippedWeapon,
        ItemInstance,
    >)
        ensures
            match r {
                Ok(w) => weapon_base(content.bases@, item.base@) matches Some(base) && w == racked(
                    item,
                    *a,
                    base,
                ),
                Err(i) => weapon_base(content.bases@, item.base@) is None && i == item,
            },
    {
        match find_weapon_base(content.bases.as_slice(), item.base.as_str()) {
            None => Err(item),
            Some(base) => Ok(
                EquippedWeapon {
                    name: base.name.clone(),
                    weapon: a.weapon,
                    rank: a.rank,
                    profile: fire_profile(base.id.as_str()),
                    item,
                },
            ),
        }
    }

    /// Rack slot currently holding the given archetype, if any.
    fn archetype_slot(&self, base: &String) -> (slot: Option<usize>)
        ensures
            match slot {
                None => !self.rack().has(base@) && self.rack().slot_for(base@) == self.loadout@.len(),
                Some(s) => self.rack().has(base@) && self.rack().slot_for(base@) == s && s
                    < self.loadout@.len(),
            },
    {
        for s in 0..self.loadout.len()
            invariant
                forall|j: int| 0 <= j < s ==> (#[trigger] self.loadout@[j]).item.base@ != base@,
        {
            if self.loadout[s].item.base == *base {
                proof {
                    assert(self.rack().holds(base@, s as int));
                    lemma_slot_for(self.rack(), base@, s as int);
                }
                return Some(s);
            }
        }
        proof {
            if self.rack().has(base@) {
                let s = choose|s: int| self.rack().holds(base@, s);
                assert(self.loadout@[s].item.base@ == base@);
            }
        }
        None
    }

    /// Make the weapon at `slot` active: route its damage / fire rate / crit and fire
    /// pattern into the tunables. No-op for an out-of-range slot.
    pub fn activate(&mut self, slot: usize)
        ensures
            final(self).rack() == old(self).rack().activated(slot as int),
            final(self).same_but_rack(*old(self)),
            final(self).loadout == old(self).loadout,
            final(self).inventory == old(self).inventory,
    {
        if slot >= self.loadout.len() {
            return ;
        }
        let weapon = self.loadout[slot].weapon;
        let profile = self.loadout[slot].profile;
        self.active = slot;
        self.tunables.bullet_damage = weapon.damage_per_shot;
        if weapon.fire_rate.is_positive() {
            self.tunables.fire_rate = weapon.fire_rate;
        }
        self.tunables.crit_chance = weapon.crit_chance;
        self.tunables.crit_multiplier = weapon.crit_multiplier;
        match profile {
            FireProfile::Spread { pellets, spread } => {
                self.tunables.spread_pellets = pellets;
                self.tunables.spread_angle = spread;
            },
            FireProfile::Explosive { radius, speed_factor } => {
                self.tunables.blast_radius = radius;
                self.tunables.blast_speed_factor = speed_factor;
            },
            FireProfile::Single => {},
        }
    }

    /// Puts a weapon in its archetype's slot, and returns the slot and the weapon that was
    /// there.
    fn place(&mut self, w: EquippedWeapon) -> (r: (usize, Option<EquippedWeapon>))
        requires
            one_per_archetype(old(self).loadout@),
        ensures
            final(self).rack() == old(self).rack().placed(w),
            final(self).same_but_rack(*old(self)),
            final(self).inventory == old(self).inventory,
            one_per_archetype(final(self).loadout@),
            r.0 == old(self).rack().slot_for(w.item.base@),
            r.0 < final(self).loadout@.len(),
            match r.1 {
                None => r.0 == old(self).loadout@.len(),
                Some(old_w) => r.0 < old(self).loadout@.len() && old_w == old(self).loadout@[r.0 as int],
            },
    {
        proof {
            lemma_placed(self.rack(), w);
        }
        match self.archetype_slot(&w.item.base) {
            Some(s) => {
                let ghost before = self.loadout@;
                let mut w = w;
                std::mem::swap(&mut self.loadout[s], &mut w);
                assert(self.loadout@ =~= before.update(s as int, self.loadout@[s as int]));
                (s, Some(w))
            },
            None => {
                self.loadout.push(w);
                (self.loadout.len() - 1, None)
            },
        }
    }

    /// Arm `item` now: ensure its archetype's rack slot holds the better of `item` and
    /// whatever is already there, then make that slot active. Returns `false` (unchanged)
    /// for a non-weapon / unknown base.
    pub fn equip(&mut self, item: ItemInstance, a: &Appraisal, content: &Content) -> (armed: bool)
        requires
            old(self).wf(),
        ensures
            final(self).wf(),
            final(self).same_but_rack(*old(self)),
            match weapon_base(content.bases@, item.base@) {
                None => !armed && *final(self) == *old(self),
                Some(base) => armed && final(self).rack() == old(self).rack().armed(
                    racked(item, *a, base),
                ),
            },
    {
        match Self::build_equipped(item, a, content) {
            Err(_) => false,
            Ok(w) => {
                proof {
                    lemma_placed(self.rack(), w);
                }
                if let Some(s) = self.archetype_slot(&w.item.base) {
                    if !self.loadout[s].rank.lt(&w.rank) {
                        self.activate(s);
                        return true;
                    }
                }
                let (slot, _) = self.place(w);
                self.activate(slot);
                true
            },
        }
    }

    /// Equip a fresh, zero-affix instance of the weapon base `base_id` — the
    /// starting-loadout convenience. Returns `false` for an unknown or non-weapon base id.
    pub fn equip_base(&mut self, base_id: &str, a: &Appraisal, content: &Content) -> (armed: bool)
        requires
            old(self).wf(),
        ensures
            final(self).wf(),
            final(self).same_but_rack(*old(self)),
            match weapon_base(content.bases@, base_id@) {
                None => !armed && *final(self) == *old(self),
                Some(base) => armed && exists|item: ItemInstance| #[trigger]
                    is_stock(item, base_id@) && final(self).rack() == old(self).rack().armed(
                        racked(item, *a, base),
                    ),
            },
    {
        let item = stock_item(base_id);
        self.equip(item, a, content)
    }

    /// Puts an item in its archetype's slot, whatever was there, and makes that slot active.
    /// No-op for a non-weapon / unknown base.
    pub(crate) fn force_equip(&mut self, item: ItemInstance, a: &Appraisal, content: &Content)
        requires
            old(self).wf(),
        ensures
            final(self).wf(),
            final(self).same_but_rack(*old(self)),
            match weapon_base(content.bases@, item.base@) {
                None => *final(self) == *old(self),
                Some(base) => final(self).rack() == old(self).rack().placed(
                    racked(item, *a, base),
                ).activated(old(self).rack().slot_for(item.base@)),
            },
    {
        match Self::build_equipped(item, a, content) {
            Err(_) => {},
            Ok(w) => {
                let (slot, _) = self.place(w);
                self.activate(slot);
            },
        }
    }

    /// Switch to the weapon at rack `slot` (the number-key path). Returns whether it
    /// pointed at a real slot.
    pub fn switch_weapon(&mut self, slot: usize) -> (switched: bool)
        requires
            old(self).wf(),
        ensures
            final(self).wf(),
            final(self).same_but_rack(*old(self)),
            switched == (slot < old(self).loadout@.len()),
            final(self).rack() == old(self).rack().activated(slot as int),
    {
        if slot < self.loadout.len() {
            self.activate(slot);
            true
        } else {
            false
        }
    }

    /// Cycle the active weapon by `dir` (+1 next / −1 prev), wrapping around the rack.
    /// No-op (returns `false`) with fewer than two weapons.
    pub fn cycle_weapon(&mut self, dir: i32) -> (cycled: bool)
        requires
            old(self).wf(),
        ensures
            final(self).wf(),
            final(self).same_but_rack(*old(self)),
            cycled == (old(self).loadout@.len() >= 2),
            final(self).rack() == (if cycled {
                old(self).rack().activated(
                    (old(self).active + dir) % (old(self).loadout@.len() as int),
                )
            } else {
                old(self).rack()
            }),
    {
        let n: usize = self.loadout.len();
        if n < 2 {
            return false;
        }
        let next: usize = wrap_around(self.active, dir, n);
        self.activate(next);
        true
    }

    /// Equip the inventory item at `index` (the inventory-screen path). The player's
    /// explicit choice is placed into its archetype's rack slot unconditionally — even a
    /// weaker weapon — and any weapon it displaces from the rack drops back into the
    /// inventory. The chosen item leaves the inventory and becomes active. Returns `false`
    /// (unchanged) for an out-of-range index or a non-weapon item.
    pub fn equip_from_inventory(&mut self, index: usize, a: &Appraisal, content: &Content) -> (done:
        bool)
        requires
            old(self).wf(),
        ensures
            final(self).wf(),
            final(self).same_but_rack(*old(self)),
            done == (index < old(self).inventory@.len() && weapon_base(
                content.bases@,
                old(self).inventory@[index as int].base@,
            ) is Some),
            !done ==> *final(self) == *old(self),
            done ==> ({
                let item = old(self).inventory@[index as int];
                let w = racked(item, *a, weapon_base(content.bases@, item.base@)->0);
                let without = Rack {
                    inventory: old(self).inventory@.remove(index as int),
                    ..old(self).rack()
                };
                final(self).rack() == without.swapped(w).activated(without.slot_for(item.base@))
            }),
    {
        if index >= self.inventory.len() {
            return false;
        }
        if find_weapon_base(
            content.bases.as_slice(),
            self.inventory[index].base.as_str(),
        ).is_none() {
            return false;
        }
        let ghost before = self.rack();
        let item = self.inventory.remove(index);
        let ghost without = self.rack();
        proof {
            assert forall|base: Seq<char>| without.slot_for(base) == before.slot_for(base) by {
                assert forall|s: int| without.holds(base, s) == before.holds(base, s) by {}
            }
        }
        match Self::build_equipped(item, a, content) {
            Err(_) => false,
            Ok(w) => {
                proof {
                    lemma_placed(self.rack(), w);
                }
                let (slot, displaced) = self.place(w);
                if let Some(o) = displaced {
                    self.inventory.push(o.item);
                }
                assert(self.rack() == without.swapped(w));
                self.activate(slot);
                true
            },
        }
    }

    /// Route one picked-up `item`. Weapons compete for their archetype's single rack slot —
    /// the rack keeps the best instance per archetype, and the loser (or a worse
    /// duplicate, or any non-weapon) goes to the inventory. Auto-activates a racked weapon
    /// when it's the first held, a strict upgrade over the active weapon, or an upgrade to
    /// the active archetype. Returns whether it became the active weapon.
    pub fn acquire_item(&mut self, item: ItemInstance, a: &Appraisal, content: &Content) -> (active:
        bool)
        requires
            old(self).wf(),
        ensures
            final(self).wf(),
            final(self).same_but_rack(*old(self)),
            (final(self).rack(), active) == (match weapon_base(content.bases@, item.base@) {
                None => (
                    Rack { inventory: old(self).inventory@.push(item), ..old(self).rack() },
                    false,
                ),
                Some(base) => old(self).rack().acquired(racked(item, *a, base)),
            }),
    {
        match Self::build_equipped(item, a, content) {
            Err(item) => {
                self.inventory.push(item);
                false
            },
            Ok(w) => {
                let ghost before = self.rack();
                proof {
                    lemma_placed(before, w);
                }
                let rank = w.rank;
                let found = self.archetype_slot(&w.item.base);
                let takes_over = match found {
                    Some(s) => s == self.active,
                    None => self.loadout.len() == self.active,
                } || match self.equipped() {
                    None => true,
                    Some(e) => e.rank.lt(&rank),
                };
                if let Some(s) = found {
                    if rank.le(&self.loadout[s].rank) {
                        self.inventory.push(w.item);
                        return false;
                    }
                }
                let (slot, displaced) = self.place(w);
                if let Some(o) = displaced {
                    self.inventory.push(o.item);
                }
                assert(self.rack() == before.swapped(w));
                if takes_over {
                    self.activate(slot);
                }
                takes_over
            },
        }
    }
}

} // verus!
