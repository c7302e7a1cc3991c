//! Kills and loot: what a kill is worth, what it drops, and what becomes of a drop that
//! the player walks over.

use vstd::prelude::*;

use crate::game::entity::{
    projectile_weapon, Appraisal, Content, EnemyInstance, LootDrop, Projectile,
};
use crate::game::rack::{racked, weapon_base, Rack};
use crate::game::world::{ids_unique, World};
use crate::procgen::spawn::swap_removed;
use crate::rng::{unit_of, Draw, RngState};
use crate::rules::combat::{resolve_hit, Aimed, Combatant, ShotRoll};
use crate::rules::item::{ItemInstance, Rarity};
use crate::rules::rarity::{roll_rarity, rolled_rarity};
use crate::rules::roll::{can_drop, can_roll, is_rolled, roll_item, rolled_item};
use crate::scalar::Scalar;

verus! {

/// What an enemy is worth: the XP for killing it, and the level of what it drops. An
/// archetype that the content does not know is worth nothing.
pub open spec fn worth_of(content: Content, archetype: int) -> (u32, u32) {
    if 0 <= archetype < content.enemies@.len() {
        (content.enemies@[archetype].xp_value, content.enemies@[archetype].ilvl)
    } else {
        (0, 1)
    }
}

/// Whether items of the level that an enemy drops can be rolled from the content.
pub open spec fn loot_fits(content: Content, archetype: int) -> bool {
    can_drop(content.bases@, content.affixes@, worth_of(content, archetype).1)
}

/// Whether a kill drops something, and the generator after that was drawn.
pub open spec fn kill_drops(g: RngState, chance: Scalar) -> (bool, RngState) {
    (chance.is_nan() || chance.above_draw(unit_of(g)), g.after(Draw::Word32))
}

/// Whether an item is the one that the kill behind a generator drops.
pub open spec fn is_kill_loot(item: ItemInstance, g: RngState, content: Content, ilvl: u32) -> bool {
    let (rarity, g1) = rolled_rarity(g);
    is_rolled(
        item,
        content.bases@,
        content.affixes@,
        ilvl,
        rarity,
        rolled_item(g1, content.bases@, content.affixes@, ilvl, rarity),
    )
}

/// The text that announces a pickup: the rarity and the base, and whether it is now in
/// hand.
pub open spec fn pickup_text(rarity: Rarity, base: Seq<char>, equipped: bool) -> Seq<char> {
    let label = rarity.label() + seq![' '] + base;
    if equipped {
        "equipped "@ + label
    } else {
        label
    }
}

/// The text that announces a pickup.
pub fn pickup_label(rarity: Rarity, base: &String, equipped: bool) -> (s: String)
    ensures
        s@ == pickup_text(rarity, base@, equipped),
{
    let mut s = String::new();
    if equipped {
        s.append("equipped ");
    }
    s.append(rarity.name());
    s.push(' ');
    s.append(base.as_str());
    proof {
        assert(rarity.label().push(' ') =~= rarity.label() + seq![' ']);
        let none = Seq::<char>::empty();
        if equipped {
            assert((((none + "equipped "@) + rarity.label()).push(' ') + base@) =~= "equipped "@ + (
            rarity.label() + seq![' '] + base@));
        } else {
            assert((none + rarity.label()).push(' ') + base@ =~= rarity.label() + seq![' '] + base@);
        }
    }
    s
}

/// Taking one enemy out keeps the ids unique.
pub proof fn lemma_ids_without_enemy(
    enemies: Seq<EnemyInstance>,
    drops: Seq<LootDrop>,
    next: u64,
    i: int,
)
    requires
        ids_unique(enemies, drops, next),
        0 <= i < enemies.len(),
    ensures
        ids_unique(swap_removed(enemies, i), drops, next),
{
    let fewer = swap_removed(enemies, i);
    let from = |k: int| if k == i { enemies.len() - 1 } else { k };
    assert forall|k: int| 0 <= k < fewer.len() implies fewer[k] == enemies[from(k)] by {}
}

/// Taking one drop out keeps the ids unique.
pub proof fn lemma_ids_without_drop(
    enemies: Seq<EnemyInstance>,
    drops: Seq<LootDrop>,
    next: u64,
    i: int,
)
    requires
        ids_unique(enemies, drops, next),
        0 <= i < drops.len(),
    ensures
        ids_unique(enemies, swap_removed(drops, i), next),
{
    let fewer = swap_removed(drops, i);
    let from = |k: int| if k == i { drops.len() - 1 } else { k };
    assert forall|k: int| 0 <= k < fewer.len() implies fewer[k] == drops[from(k)] by {}
}

/// An enemy after a shot at it: hurt if it was hit, and awake either way.
pub open spec fn struck_by(e: EnemyInstance, aimed: Aimed, roll: ShotRoll) -> EnemyInstance {
    EnemyInstance { combatant: aimed.on(e.combatant, roll), awake: true, ..e }
}

impl World {
    /// Whether the counters of this world can take one more kill of the given archetype.
    pub open spec fn can_count_kill(self, content: Content, archetype: int) -> bool {
        &&& self.kills < u32::MAX
        &&& self.xp + worth_of(content, archetype).0 <= u64::MAX
        &&& self.event_seq < u64::MAX
        &&& self.next_entity_id < u64::MAX
    }

    /// Whether this world is the other one after its `ei`-th enemy was killed: the enemy is
    /// gone and counted, its XP awarded; if anything can drop at all, one event is used up,
    /// and what that event's generator decides lies where the enemy was.
    pub open spec fn is_after_kill(self, before: World, ei: int, content: Content) -> bool {
        let dead = before.enemies@[ei];
        let (xp, ilvl) = worth_of(content, dead.archetype as int);
        let (drops_something, g) = kill_drops(before.event_rng(), before.tunables.drop_chance);
        &&& self == (World {
            enemies: self.enemies,
            kills: (before.kills + 1) as u32,
            xp: (before.xp + xp) as u64,
            drops: self.drops,
            event_seq: self.event_seq,
            next_entity_id: self.next_entity_id,
            ..before
        })
        &&& self.enemies@ == swap_removed(before.enemies@, ei)
        &&& if content.bases@.len() == 0 {
            &&& self.event_seq == before.event_seq
            &&& self.next_entity_id == before.next_entity_id
            &&& self.drops == before.drops
        } else if drops_something {
            &&& self.event_seq == before.event_seq + 1
            &&& self.next_entity_id == before.next_entity_id + 1
            &&& self.drops@.len() == before.drops@.len() + 1
            &&& self.drops@.drop_last() == before.drops@
            &&& self.drops@.last().id == before.next_entity_id
            &&& self.drops@.last().x == dead.x
            &&& self.drops@.last().y == dead.y
            &&& is_kill_loot(self.drops@.last().item, g, content, ilvl)
        } else {
            &&& self.event_seq == before.event_seq + 1
            &&& self.next_entity_id == before.next_entity_id
            &&& self.drops == before.drops
        }
    }

    /// Remove a dead enemy, award XP, and roll a possible loot drop at its position. The
    /// drop roll is one event keyed on `(world_seed, event_id)`.
    pub fn kill_enemy(&mut self, ei: usize, content: &Content)
        requires
            old(self).wf(),
            ei < old(self).enemies@.len(),
            old(self).can_count_kill(*content, old(self).enemies@[ei as int].archetype as int),
            loot_fits(*content, old(self).enemies@[ei as int].archetype as int),
        ensures
            final(self).wf(),
            final(self).is_after_kill(*old(self), ei as int, *content),
    {
        proof {
            lemma_ids_without_enemy(
                self.enemies@,
                self.drops@,
                self.next_entity_id,
                ei as int,
            );
        }
        let dead = self.enemies.swap_remove(ei);
        self.kills = self.kills + 1;
        let (xp_value, ilvl): (u32, u32) = if dead.archetype < content.enemies.len() {
            (content.enemies[dead.archetype].xp_value, content.enemies[dead.archetype].ilvl)
        } else {
            (0, 1)
        };
        self.xp = self.xp + xp_value as u64;
        if content.bases.len() == 0 {
            return ;
        }
        let mut rng = self.next_event_rng();
        let draw: u32 = rng.unit();
        let chance = self.tunables.drop_chance;
        if chance.le(&chance) && !chance.exceeds_draw(draw) {
            return ;
        }
        let rarity = roll_rarity(&mut rng);
        assert(can_roll(content.bases@, content.affixes@, ilvl, rarity));
        if let Ok(item) = roll_item(
            &mut rng,
            content.bases.as_slice(),
            content.affixes.as_slice(),
            ilvl,
            rarity,
        ) {
            self.push_drop(dead.x, dead.y, item);
            assert(self.drops@.drop_last() =~= old(self).drops@);
        }
    }

    /// Puts an item on the ground, under a fresh id.
    pub fn push_drop(&mut self, x: Scalar, y: Scalar, item: ItemInstance)
        requires
            old(self).wf(),
            old(self).next_entity_id < u64::MAX,
        ensures
            final(self).wf(),
            final(self).drops@ == old(self).drops@.push(
                LootDrop { id: old(self).next_entity_id, x, y, item },
            ),
            *final(self) == (World {
                drops: final(self).drops,
                next_entity_id: (old(self).next_entity_id + 1) as u64,
                ..*old(self)
            }),
    {
        let id: u64 = self.alloc_id();
        self.drops.push(LootDrop { id, x, y, item });
    }

    /// How the next shot at the `ei`-th enemy is decided: each shot is an event of its own.
    pub open spec fn shot(self, ei: int, p: Projectile, aimed: Aimed) -> ShotRoll {
        aimed.roll(self.event_rng(), p.as_weapon(), self.enemies@[ei].combatant).0
    }

    /// Whether a shot kills the `ei`-th enemy.
    pub open spec fn shot_kills(self, ei: int, p: Projectile, aimed: Aimed) -> bool {
        struck_by(self.enemies@[ei], aimed, self.shot(ei, p, aimed)).combatant.is_dead()
    }

    /// Whether this world is the other one right after a shot at its `ei`-th enemy: an event
    /// is used up, the enemy is struck, and the result is noted.
    pub open spec fn is_after_shot(
        self,
        before: World,
        ei: int,
        p: Projectile,
        aimed: Aimed,
    ) -> bool {
        let roll = before.shot(ei, p, aimed);
        &&& self.enemies@ == before.enemies@.update(
            ei,
            struck_by(before.enemies@[ei], aimed, roll),
        )
        &&& self == (World {
            enemies: self.enemies,
            last_hit: Some(aimed.result(p.as_weapon(), before.enemies@[ei].combatant, roll)),
            event_seq: (before.event_seq + 1) as u64,
            ..before
        })
    }

    /// Whether this world is the other one after a shot at its `ei`-th enemy and, if the
    /// shot kills it, after the kill.
    pub open spec fn is_after_hit(
        self,
        before: World,
        ei: int,
        p: Projectile,
        aimed: Aimed,
        content: Content,
    ) -> bool {
        exists|w: World|
            #![trigger w.is_after_shot(before, ei, p, aimed)]
            w.is_after_shot(before, ei, p, aimed) && if before.shot_kills(ei, p, aimed) {
                self.is_after_kill(w, ei, content)
            } else {
                self == w
            }
    }

    /// Whether the counters of this world can take a shot at an enemy of the given archetype.
    pub open spec fn can_count_hit(self, content: Content, archetype: int) -> bool {
        &&& self.can_count_kill(content, archetype)
        &&& self.event_seq + 1 < u64::MAX
    }

    /// Resolve a projectile's hit on enemy `ei`: rolls the shot from an event of its own and
    /// applies it, notes the result, wakes the enemy, and kills it if no life is left.
    /// Returns whether it died.
    pub fn hit_enemy(&mut self, ei: usize, p: &Projectile, aimed: &Aimed, content: &Content) -> (
    killed: bool)
        requires
            old(self).wf(),
            ei < old(self).enemies@.len(),
            old(self).can_count_hit(*content, old(self).enemies@[ei as int].archetype as int),
            loot_fits(*content, old(self).enemies@[ei as int].archetype as int),
        ensures
            final(self).wf(),
            killed == old(self).shot_kills(ei as int, *p, *aimed),
            final(self).is_after_hit(*old(self), ei as int, *p, *aimed, *content),
    {
        let ghost before = *self;
        let weapon = projectile_weapon(p);
        let mut rng = self.next_event_rng();
        let mut e = self.enemies[ei];
        let mut c: Combatant = e.combatant;
        let result = resolve_hit(&mut rng, &weapon, &mut c, aimed);
        e.combatant = c;
        e.awake = true;
        self.last_hit = Some(result);
        self.enemies.set(ei, e);
        let ghost hit = *self;
        assert(hit.is_after_shot(before, ei as int, *p, *aimed));
        assert(ids_unique(self.enemies@, self.drops@, self.next_entity_id));
        if c.dead() {
            self.kill_enemy(ei, content);
            true
        } else {
            false
        }
    }

    /// Whether this world is the other one after its `i`-th drop was collected: the drop has
    /// left the ground, its item is in the rack or the inventory, and it is announced.
    pub open spec fn is_after_pickup(
        self,
        before: World,
        i: int,
        a: Appraisal,
        content: Content,
    ) -> bool {
        let item = before.drops@[i].item;
        let (rack, equipped) = match weapon_base(content.bases@, item.base@) {
            None => (Rack { inventory: before.inventory@.push(item), ..before.rack() }, false),
            Some(base) => before.rack().acquired(racked(item, a, base)),
        };
        &&& self.drops@ == swap_removed(before.drops@, i)
        &&& self.rack() == rack
        &&& self.last_pickup matches Some(s) && s@ == pickup_text(
            item.rarity,
            item.base@,
            equipped,
        )
        &&& self == (World {
            drops: self.drops,
            last_pickup: self.last_pickup,
            loadout: self.loadout,
            active: self.active,
            inventory: self.inventory,
            tunables: self.tunables,
            ..before
        })
    }

    /// Collect the `i`-th ground drop: it leaves the ground, goes to the rack or the
    /// inventory, and is announced.
    pub fn collect_drop(&mut self, i: usize, a: &Appraisal, content: &Content)
        requires
            old(self).wf(),
            i < old(self).drops@.len(),
        ensures
            final(self).wf(),
            final(self).is_after_pickup(*old(self), i as int, *a, *content),
    {
        proof {
            lemma_ids_without_drop(self.enemies@, self.drops@, self.next_entity_id, i as int);
        }
        let drop = self.drops.swap_remove(i);
        let rarity = drop.item.rarity;
        let base = drop.item.base.clone();
        let equipped = self.acquire_item(drop.item, a, content);
        self.last_pickup = Some(pickup_label(rarity, &base, equipped));
    }
}

/// How a pickup goes: the drop leaves the ground and the others stay. A weapon goes where a
/// weapon goes that is picked up, everything else goes to the inventory. The announcement
/// names the rarity and the base, and says so if the weapon is now in hand.
pub proof fn law_one_pickup(
    before: World,
    after: World,
    i: int,
    a: Appraisal,
    content: Content,
    j: int,
)
    requires
        after.is_after_pickup(before, i, a, content),
        0 <= i < before.drops@.len(),
    ensures
        ({
            let item = before.drops@[i].item;
            let base = weapon_base(content.bases@, item.base@);
            let plain = item.rarity.label().push(' ') + item.base@;
            &&& after.drops@.len() == before.drops@.len() - 1
            &&& 0 <= j < before.drops@.len() && j != i ==> after.drops@.contains(before.drops@[j])
            &&& base is None ==> {
                &&& after.inventory@ == before.inventory@.push(item)
                &&& after.loadout@ == before.loadout@
                &&& after.active == before.active
                &&& after.tunables == before.tunables
                &&& after.last_pickup matches Some(s) && s@ == plain
            }
            &&& base matches Some(b) ==> {
                let (rack, equipped) = before.rack().acquired(racked(item, a, b));
                &&& after.loadout@ == rack.loadout
                &&& after.inventory@ == rack.inventory
                &&& after.active == rack.active
                &&& after.tunables == rack.tunables
                &&& after.last_pickup matches Some(s) && s@ == if equipped {
                    "equipped "@ + plain
                } else {
                    plain
                }
            }
            &&& after.enemies == before.enemies
            &&& after.player == before.player
            &&& after.kills == before.kills
            &&& after.event_seq == before.event_seq
        }),
{
    let item = before.drops@[i].item;
    assert(item.rarity.label().push(' ') =~= item.rarity.label() + seq![' ']);
    if 0 <= j < before.drops@.len() && j != i {
        let fewer = swap_removed(before.drops@, i);
        if j == before.drops@.len() - 1 {
            assert(fewer[i] == before.drops@[j]);
        } else {
            assert(fewer[j] == before.drops@[j]);
        }
    }
}

} // verus!
