//! What holds of the rack whatever is done with it.

use vstd::multiset::Multiset;
use vstd::prelude::*;

use crate::game::entity::{Appraisal, EquippedWeapon, FireProfile};
use crate::game::rack::{
    first_base, has_base, is_stock, lemma_base_of, lemma_slot_for, racked, weapon_base, Rack,
};
use crate::game::tunables::Tunables;
use crate::rules::item::{BaseItem, ItemInstance};

verus! {

/// The items on a rack.
pub open spec fn racked_items(loadout: Seq<EquippedWeapon>) -> Seq<ItemInstance> {
    loadout.map_values(|w: EquippedWeapon| w.item)
}

/// Everything that the player owns: what is on the rack and what is in the inventory.
pub open spec fn owned(r: Rack) -> Multiset<ItemInstance> {
    racked_items(r.loadout).to_multiset().add(r.inventory.to_multiset())
}

/// Putting a weapon on the rack adds it to what the player owns, and nothing is lost: what
/// it displaces is back in the inventory.
proof fn lemma_swapped_owned(r: Rack, w: EquippedWeapon)
    ensures
        owned(r.swapped(w)) =~= owned(r).insert(w.item),
{
    broadcast use vstd::seq_lib::group_to_multiset_ensures;
    broadcast use vstd::multiset::group_multiset_axioms;

    let slot = r.slot_for(w.item.base@);
    let items = racked_items(r.loadout);
    if r.has(w.item.base@) {
        assert(r.holds(w.item.base@, slot));
        assert(racked_items(r.placed(w).loadout) =~= items.update(slot, w.item));
        let displaced = r.loadout[slot].item;
        assert(items[slot] == displaced);
        assert(items.contains(displaced));
        assert(r.swapped(w).inventory == r.inventory.push(displaced));
    } else {
        assert(racked_items(r.placed(w).loadout) =~= items.push(w.item));
    }
}

/// Picking something up loses nothing: what the player owns afterwards is what they owned
/// before, and the item.
pub proof fn law_pickups_lose_nothing(r: Rack, w: EquippedWeapon)
    ensures
        owned(r.acquired(w).0) =~= owned(r).insert(w.item),
{
    broadcast use vstd::seq_lib::group_to_multiset_ensures;
    broadcast use vstd::multiset::group_multiset_axioms;

    lemma_swapped_owned(r, w);
}

/// Equipping something from the inventory loses nothing and adds nothing.
pub proof fn law_equipping_from_inventory_keeps_items(r: Rack, index: int, w: EquippedWeapon)
    requires
        0 <= index < r.inventory.len(),
        w.item == r.inventory[index],
    ensures
        ({
            let without = Rack { inventory: r.inventory.remove(index), ..r };
            owned(without.swapped(w).activated(without.slot_for(w.item.base@))) =~= owned(r)
        }),
{
    broadcast use vstd::seq_lib::group_to_multiset_ensures;
    broadcast use vstd::multiset::group_multiset_axioms;

    let without = Rack { inventory: r.inventory.remove(index), ..r };
    lemma_swapped_owned(without, w);
    assert(r.inventory.contains(w.item));
}

/// After a pickup, the rack holds a weapon of that archetype which is no worse than the
/// one picked up, and no worse than the one that was there.
pub proof fn law_rack_keeps_the_best(r: Rack, w: EquippedWeapon)
    requires
        r.wf(),
    ensures
        ({
            let after = r.acquired(w).0;
            let slot = r.slot_for(w.item.base@);
            &&& 0 <= slot < after.loadout.len()
            &&& after.loadout[slot].item.base@ == w.item.base@
            &&& !after.loadout[slot].rank.less_than(w.rank)
            &&& slot < r.loadout.len() ==> !after.loadout[slot].rank.less_than(r.loadout[slot].rank)
        }),
{
    let slot = r.slot_for(w.item.base@);
    if r.has(w.item.base@) {
        assert(r.holds(w.item.base@, slot));
    }
}

/// A pickup touches no other slot of the rack.
pub proof fn law_pickups_touch_one_slot(r: Rack, w: EquippedWeapon, i: int)
    requires
        0 <= i < r.loadout.len(),
        i != r.slot_for(w.item.base@),
    ensures
        i < r.acquired(w).0.loadout.len(),
        r.acquired(w).0.loadout[i] == r.loadout[i],
{
    let slot = r.slot_for(w.item.base@);
    if r.has(w.item.base@) {
        assert(r.holds(w.item.base@, slot));
    }
}

/// Cycling one on and one back ends at the weapon that was active.
pub proof fn law_cycling_there_and_back(active: int, n: int)
    requires
        0 <= active < n,
    ensures
        ((active + 1) % n - 1) % n == active,
        ((active - 1) % n + 1) % n == active,
{
    if active + 1 < n {
        vstd::arithmetic::div_mod::lemma_small_mod((active + 1) as nat, n as nat);
        vstd::arithmetic::div_mod::lemma_small_mod(active as nat, n as nat);
    } else {
        assert(active + 1 == n * 1 + 0);
        vstd::arithmetic::div_mod::lemma_fundamental_div_mod_converse(active + 1, n, 1, 0);
        vstd::arithmetic::div_mod::lemma_fundamental_div_mod_converse(-1, n, -1, n - 1);
    }
    if active >= 1 {
        vstd::arithmetic::div_mod::lemma_small_mod((active - 1) as nat, n as nat);
        vstd::arithmetic::div_mod::lemma_small_mod(active as nat, n as nat);
    } else {
        vstd::arithmetic::div_mod::lemma_fundamental_div_mod_converse(-1, n, -1, n - 1);
        vstd::arithmetic::div_mod::lemma_fundamental_div_mod_converse(n, n, 1, 0);
    }
}

/// Activating a slot twice is activating it once.
pub proof fn law_activating_is_idempotent(r: Rack, slot: int)
    ensures
        r.activated(slot).activated(slot) == r.activated(slot),
{
}

/// Whether the given slot is the one for an archetype: the one that holds it, or the first
/// free one where none does.
pub open spec fn is_slot(r: Rack, base: Seq<char>, s: int) -> bool {
    &&& 0 <= s <= r.loadout.len()
    &&& s < r.loadout.len() ==> r.loadout[s].item.base@ == base
    &&& s == r.loadout.len() ==> forall|j: int|
        0 <= j < r.loadout.len() ==> (#[trigger] r.loadout[j]).item.base@ != base
}

proof fn lemma_is_slot(r: Rack, base: Seq<char>, s: int)
    requires
        r.wf(),
        is_slot(r, base, s),
    ensures
        r.slot_for(base) == s,
{
    if s < r.loadout.len() {
        assert forall|j: int| 0 <= j < s implies (#[trigger] r.loadout[j]).item.base@ != base by {
            assert(r.loadout[s].item.base@ == base);
        }
        assert(r.holds(base, s));
        lemma_slot_for(r, base, s);
    } else if r.has(base) {
        let c = choose|c: int| r.holds(base, c);
        assert(r.loadout[c].item.base@ == base);
    }
}

/// Whether the knobs are those of a weapon: its damage and crit numbers, its fire rate if it
/// has one, and the numbers of its fire pattern. The others are as they were.
pub open spec fn knobs_of(t: Tunables, before: Tunables, w: EquippedWeapon) -> bool {
    let fires = !w.weapon.fire_rate.is_nan() && w.weapon.fire_rate.value() > 0;
    &&& t.bullet_damage == w.weapon.damage_per_shot
    &&& t.crit_chance == w.weapon.crit_chance
    &&& t.crit_multiplier == w.weapon.crit_multiplier
    &&& t.fire_rate == if fires {
        w.weapon.fire_rate
    } else {
        before.fire_rate
    }
    &&& w.profile matches FireProfile::Spread { pellets, spread } ==> t.spread_pellets == pellets
        && t.spread_angle == spread
    &&& !(w.profile is Spread) ==> t.spread_pellets == before.spread_pellets && t.spread_angle
        == before.spread_angle
    &&& w.profile matches FireProfile::Explosive { radius, speed_factor } ==> t.blast_radius
        == radius && t.blast_speed_factor == speed_factor
    &&& !(w.profile is Explosive) ==> t.blast_radius == before.blast_radius
        && t.blast_speed_factor == before.blast_speed_factor
    &&& t.player_speed == before.player_speed
    &&& t.projectile_speed == before.projectile_speed
    &&& t.bullet_lifetime == before.bullet_lifetime
    &&& t.contact_dps == before.contact_dps
    &&& t.drop_chance == before.drop_chance
    &&& t.spawn_batch == before.spawn_batch
    &&& t.max_enemies == before.max_enemies
    &&& t.god_mode == before.god_mode
    &&& t.auto_spawn == before.auto_spawn
}

/// Switching to a slot makes its weapon active and takes over its knobs; the rack and the
/// inventory stay as they are. A slot that does not exist changes nothing.
pub proof fn law_switching(r: Rack, slot: int)
    ensures
        ({
            let after = r.activated(slot);
            &&& after.loadout == r.loadout
            &&& after.inventory == r.inventory
            &&& 0 <= slot < r.loadout.len() ==> after.active == slot && knobs_of(
                after.tunables,
                r.tunables,
                r.loadout[slot],
            )
            &&& !(0 <= slot < r.loadout.len()) ==> after == r
        }),
{
}

/// What becomes of a weapon that is picked up. It goes onto the rack if its archetype has no
/// weapon there, or one that ranks below it, which then goes to the inventory; otherwise it
/// goes to the inventory itself. One that goes onto the rack becomes active if the rack was
/// empty, if it ranks above the active weapon, or if it takes that weapon's place.
pub proof fn law_pickups(r: Rack, w: EquippedWeapon, s: int)
    requires
        r.wf(),
        is_slot(r, w.item.base@, s),
        !w.rank.is_nan(),
        forall|j: int| 0 <= j < r.loadout.len() ==> !(#[trigger] r.loadout[j]).rank.is_nan(),
    ensures
        ({
            let (after, activated) = r.acquired(w);
            let n = r.loadout.len();
            let worse = s < n && w.rank.value() <= r.loadout[s].rank.value();
            let leads = n == 0 || s == r.active || r.loadout[r.active].rank.value()
                < w.rank.value();
            &&& worse ==> after.loadout == r.loadout && after.inventory == r.inventory.push(w.item)
            &&& !worse && s < n ==> after.loadout == r.loadout.update(s, w) && after.inventory
                == r.inventory.push(r.loadout[s].item)
            &&& s == n ==> after.loadout == r.loadout.push(w) && after.inventory == r.inventory
            &&& activated <==> !worse && leads
            &&& activated ==> after.active == s && knobs_of(after.tunables, r.tunables, w)
            &&& !activated ==> after.active == r.active && after.tunables == r.tunables
        }),
{
    lemma_is_slot(r, w.item.base@, s);
}

/// What becomes of a weapon that is armed. Its archetype's slot keeps what it has unless the
/// weapon ranks above it, and takes the weapon if it has nothing; the slot becomes active
/// either way, and nothing goes to the inventory.
pub proof fn law_arming(r: Rack, w: EquippedWeapon, s: int)
    requires
        r.wf(),
        is_slot(r, w.item.base@, s),
        !w.rank.is_nan(),
        forall|j: int| 0 <= j < r.loadout.len() ==> !(#[trigger] r.loadout[j]).rank.is_nan(),
    ensures
        ({
            let after = r.armed(w);
            let n = r.loadout.len();
            &&& s < n && w.rank.value() <= r.loadout[s].rank.value() ==> after.loadout == r.loadout
            &&& s < n && r.loadout[s].rank.value() < w.rank.value() ==> after.loadout
                == r.loadout.update(s, w)
            &&& s == n ==> after.loadout == r.loadout.push(w)
            &&& after.active == s
            &&& after.inventory == r.inventory
            &&& knobs_of(after.tunables, r.tunables, after.loadout[s])
        }),
{
    lemma_is_slot(r, w.item.base@, s);
}

/// What becomes of a weapon that is chosen from the inventory: it goes onto the rack however
/// it ranks and becomes active, and what it displaces goes to the inventory.
pub proof fn law_choosing(r: Rack, w: EquippedWeapon, s: int)
    requires
        r.wf(),
        is_slot(r, w.item.base@, s),
    ensures
        ({
            let after = r.swapped(w).activated(r.slot_for(w.item.base@));
            let n = r.loadout.len();
            &&& s < n ==> after.loadout == r.loadout.update(s, w) && after.inventory
                == r.inventory.push(r.loadout[s].item)
            &&& s == n ==> after.loadout == r.loadout.push(w) && after.inventory == r.inventory
            &&& after.active == s
            &&& knobs_of(after.tunables, r.tunables, w)
            &&& r.placed(w).loadout == after.loadout
            &&& r.placed(w).inventory == r.inventory
        }),
{
    lemma_is_slot(r, w.item.base@, s);
}

/// What stands on the rack of an item: the item itself, what it was appraised at, and the
/// name of its base. Shotguns spread their shots and rocket launchers fire explosive ones;
/// every other weapon fires single shots.
pub proof fn law_racked_weapons(item: ItemInstance, a: Appraisal, base: BaseItem)
    ensures
        ({
            let w = racked(item, a, base);
            &&& w.item == item
            &&& w.weapon == a.weapon
            &&& w.rank == a.rank
            &&& w.name == base.name
            &&& w.profile is Spread <==> base.id@ == "shotgun"@
            &&& base.id@ != "shotgun"@ ==> (w.profile is Explosive <==> base.id@
                == "rocket_launcher"@)
        }),
{
}

/// Which base is a weapon's: the first of the id that is asked for, if it goes into the
/// weapon slot. A later base of the same id does not count.
pub proof fn law_weapon_bases(bases: Seq<BaseItem>, id: Seq<char>, k: int)
    requires
        0 <= k <= bases.len(),
        forall|j: int| 0 <= j < k ==> (#[trigger] bases[j]).id@ != id,
        k < bases.len() ==> bases[k].id@ == id,
    ensures
        weapon_base(bases, id) is Some <==> k < bases.len() && bases[k].slot@ == "weapon"@,
        weapon_base(bases, id) matches Some(base) ==> base == bases[k],
{
    if k < bases.len() {
        assert(first_base(bases, id, k));
        lemma_base_of(bases, id, k);
    } else if has_base(bases, id) {
        let j = choose|j: int| first_base(bases, id, j);
        assert(bases[j].id@ == id);
    }
}

/// A stock weapon is a basic one of the first level, without seed, affixes, upgrades or
/// attachments.
pub proof fn law_stock_weapons(item: ItemInstance, base: Seq<char>)
    requires
        is_stock(item, base),
    ensures
        item.base@ == base,
        item.ilvl == 1,
        item.rarity.rank() == 0,
        item.seed == 0,
        item.prefixes@.len() + item.suffixes@.len() + item.attached@.len() == 0,
        item.upgrade_tier == 0,
{
}

} // verus!
