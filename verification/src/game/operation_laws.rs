//! What the operations of the game do, said of what goes into a call and what comes out of it.

use vstd::prelude::*;

use crate::game::director::{
    addressed_total, law_archetypes_are_picked_by_weight,
    law_debug_spawns, law_waves_are_full, pick_weighted_archetype,
};
use crate::game::entity::{
    Appraisal, Command, Content, EnemyInstance, Explosion, FireProfile, Projectile,
};
use crate::game::fight_laws::{
    law_blasts_strike_once, law_kills_pay, law_shots_strike_one_enemy, struck_once,
};
use crate::game::loot::{law_one_pickup, loot_fits};
use crate::game::motion::{
    approach, is_pushed, law_dormant_enemies_hold_position, law_walls_stop_one_axis,
    repels, turns, Approach, Sighting, Step,
};
use crate::game::nearby::{first_within, law_reach_includes_its_edge};
use crate::game::pickup::{
    items_of, law_pickups_keep_every_item, law_pickups_touch_nothing_else,
};
use crate::game::rack::{racked, weapon_base, Rack};
use crate::game::rack_laws::{
    is_slot, knobs_of, law_arming, law_choosing, law_pickups, law_switching, owned,
};
use crate::game::shots::{
    has_direction, law_markers_age, law_projectiles_end, law_shot_patterns, Flight, Impact,
    ShotPlan, ShotRequest,
};
use crate::game::tick::TickPhase;
use crate::game::world::{on_floor, World};
use crate::procgen::spawn::far_cells;
use crate::procgen::tilemap::TileMap;
use crate::rng::SeededRng;
use crate::rules::combat::Aimed;
use crate::rules::item::ItemInstance;
use crate::scalar::Scalar;
use crate::weighted::weight_before;

verus! {

/// When the timer has run out and there is room under the cap, a wave comes: a whole batch of
/// enemies, or as many as the cap has room for, or as there are tiles far enough away, if that
/// is less. Whoever was there before still is, and the timer starts anew. While it runs,
/// nobody comes; it starts anew even where the cap holds a wave back. Where waves are off
/// nothing happens at all.
pub proof fn law_spawning(w: &mut World, timer: Scalar, content: &Content, i: int)
    requires
        old(w).wf(),
        old(w).event_seq < u64::MAX,
        old(w).next_entity_id + old(w).tunables.spawn_batch <= u64::MAX,
        addressed_total(old(w).tunables.spawn_weights@, content.enemies@.len() as int) <= u32::MAX,
        !timer.is_nan(),
        call_ensures(World::update_spawning, (w, timer, content), ()),
    ensures
        ({
            let before = *old(w);
            let after = *final(w);
            let on = content.enemies@.len() > 0 && before.tunables.auto_spawn;
            let live = before.enemies@.len();
            let due = timer.value() <= 0 && live < before.tunables.max_enemies;
            let room = before.tunables.max_enemies - live;
            let batch = before.tunables.spawn_batch as int;
            let cells = far_cells(before.flow, before.tunables.spawn_min_distance).len() as int;
            let n = if batch <= room && batch <= cells {
                batch
            } else if room <= cells {
                room
            } else {
                cells
            };
            &&& !on ==> after == before
            &&& on && due ==> after.enemies@.len() == live + n
            &&& on && !due ==> after.enemies@ == before.enemies@
            &&& 0 <= i < live ==> after.enemies@[i] == before.enemies@[i]
            &&& on && due && live <= i < live + n ==> {
                let e = after.enemies@[i];
                &&& e.id == before.next_entity_id + (i - live)
                &&& !e.awake
                &&& e.archetype < content.enemies@.len()
                &&& e.combatant.current_life == content.enemies@[e.archetype as int].max_life
                &&& e.combatant.armor == content.enemies@[e.archetype as int].armor
                &&& e.combatant.evasion == content.enemies@[e.archetype as int].evasion
            }
            &&& on && timer.value() <= 0 ==> after.spawn_timer == before.tunables.spawn_interval
            &&& on && timer.value() > 0 ==> after.spawn_timer == timer
            &&& on && due ==> after.event_seq == before.event_seq + 1
            &&& after.player == before.player
            &&& after.drops == before.drops
            &&& after.kills == before.kills
        }),
{
    let before = *old(w);
    let n = content.enemies@.len() as int;
    crate::game::director::lemma_addressed(before.tunables.spawn_weights@, n, 0);
    if n > 0 && before.tunables.auto_spawn && timer.value() <= 0 && before.enemies@.len()
        < before.tunables.max_enemies {
        let k = i - before.enemies@.len();
        assert(content.enemies.len() == n);
        law_waves_are_full(before, *content, timer, k);
        crate::game::director::law_waves_keep_to_the_rules(before, *content);
        let wave = before.next_wave(*content);
        if 0 <= k < wave.len() {
            assert(wave[k].archetype < content.enemies@.len());
            assert(final(w).enemies@[i] == crate::game::director::arrivals(
                wave,
                before.next_entity_id,
                *content,
            )[k]);
        }
    }
}

/// Which archetype comes: the one that owns the number drawn, counted by the weights; or the
/// one whose number is drawn where none of the roster has weight.
pub proof fn law_picked_archetypes(rng: &mut SeededRng, weights: &[u32], n: usize, i: usize)
    requires
        n > 0,
        weights@.len() <= u32::MAX,
        addressed_total(weights@, n as int) <= u32::MAX,
        call_ensures(pick_weighted_archetype, (rng, weights, n), i),
    ensures
        ({
            let total = addressed_total(weights@, n as int);
            let g = old(rng)@;
            &&& i < n
            &&& total == 0 ==> i == g.range64(0, (n - 1) as u64)
            &&& total > 0 ==> i < weights@.len() && weight_before(weights@, i as int) <= g.range32(
                0,
                (total - 1) as u32,
            ) < weight_before(weights@, i as int) + weights@[i as int]
        }),
{
    crate::game::director::lemma_addressed(weights@, n as int, 0);
    law_archetypes_are_picked_by_weight(old(rng)@, weights@, n as int);
}

/// A kill counts, pays, and takes its enemy out of the world.
pub proof fn law_killing(w: &mut World, ei: usize, content: &Content, j: int)
    requires
        old(w).wf(),
        ei < old(w).enemies@.len(),
        old(w).can_count_kill(*content, old(w).enemies@[ei as int].archetype as int),
        old(w).xp + u32::MAX <= u64::MAX,
        loot_fits(*content, old(w).enemies@[ei as int].archetype as int),
        call_ensures(World::kill_enemy, (w, ei, content), ()),
    ensures
        ({
            let before = *old(w);
            let after = *final(w);
            let dead = before.enemies@[ei as int];
            let known = dead.archetype < content.enemies@.len();
            &&& after.kills == before.kills + 1
            &&& after.xp == before.xp + if known {
                content.enemies@[dead.archetype as int].xp_value
            } else {
                0
            }
            &&& after.enemies@.len() == before.enemies@.len() - 1
            &&& 0 <= j < before.enemies@.len() && j != ei ==> after.enemies@.contains(
                before.enemies@[j],
            )
            &&& after.drops@.len() <= before.drops@.len() + 1
            &&& after.drops@.len() > before.drops@.len() ==> after.drops@.last().x == dead.x
                && after.drops@.last().y == dead.y && after.drops@.last().item.ilvl == (if known {
                content.enemies@[dead.archetype as int].ilvl
            } else {
                1
            })
        }),
{
    law_kills_pay(*old(w), *final(w), ei as int, *content, j);
}

/// A hit strikes its enemy, and only that one; it returns whether the enemy died.
pub proof fn law_hitting(
    w: &mut World,
    ei: usize,
    p: &Projectile,
    aimed: &Aimed,
    content: &Content,
    killed: bool,
    j: int,
)
    requires
        old(w).wf(),
        ei < old(w).enemies@.len(),
        old(w).can_count_hit(*content, old(w).enemies@[ei as int].archetype as int),
        old(w).xp + u32::MAX <= u64::MAX,
        loot_fits(*content, old(w).enemies@[ei as int].archetype as int),
        call_ensures(World::hit_enemy, (w, ei, p, aimed, content), killed),
    ensures
        ({
            let before = *old(w);
            let after = *final(w);
            &&& after.last_hit is Some
            &&& killed ==> after.kills == before.kills + 1 && after.enemies@.len()
                == before.enemies@.len() - 1
            &&& !killed ==> {
                let e = after.enemies@[ei as int];
                &&& after.kills == before.kills
                &&& after.enemies@.len() == before.enemies@.len()
                &&& e.awake
                &&& e.id == before.enemies@[ei as int].id
                &&& e.combatant.current_life.is_nan() || e.combatant.current_life.value() > 0
                &&& 0 <= j < before.enemies@.len() && j != ei ==> after.enemies@[j]
                    == before.enemies@[j]
            }
        }),
{
    law_shots_strike_one_enemy(
        *old(w),
        *final(w),
        ei as int,
        *p,
        *aimed,
        *content,
        j,
    );
}

/// A blast strikes whoever is within its radius, edge included, and nobody else.
pub proof fn law_blasting(
    w: &mut World,
    x: Scalar,
    y: Scalar,
    p: &Projectile,
    d2: Vec<Scalar>,
    r2: &Scalar,
    aimed: Vec<Aimed>,
    content: &Content,
    j: int,
)
    requires
        old(w).wf(),
        d2@.len() == old(w).enemies@.len(),
        aimed@.len() == old(w).enemies@.len(),
        old(w).can_count_hits(old(w).enemies@.len() as int),
        forall|j: int|
            0 <= j < old(w).enemies@.len() ==> loot_fits(
                *content,
                (#[trigger] old(w).enemies@[j]).archetype as int,
            ),
        call_ensures(World::resolve_explosion, (w, x, y, p, d2, r2, aimed, content), ()),
        0 <= j < d2@.len(),
        !d2@[j].is_nan(),
        !r2.is_nan(),
    ensures
        d2@[j].value() > r2.value() ==> final(w).enemies@.contains(old(w).enemies@[j]),
        d2@[j].value() <= r2.value() ==> struck_once(
            final(w).enemies@,
            old(w).enemies@[j],
            aimed@[j],
        ) && forall|m: int|
            0 <= m < final(w).enemies@.len() && (#[trigger] final(w).enemies@[m]).id
                == old(w).enemies@[j].id ==> final(w).enemies@[m].awake,
        final(w).explosions@.len() > 0,
        final(w).explosions@.last().x == x,
        final(w).explosions@.last().y == y,
        final(w).explosions@.last().radius == p.aoe_radius,
{
    let (before, after) = (*old(w), *final(w));
    crate::game::blast::law_blast_strikes_what_is_in_reach(
        before,
        after,
        x,
        y,
        *p,
        d2@,
        *r2,
        aimed@,
        *content,
        j,
    );
    if d2@[j].value() <= r2.value() {
        law_blasts_strike_once(before, after, x, y, *p, d2@, *r2, aimed@, *content, j);
    }
    let m = choose|m: World|
        #![trigger crate::game::blast::blasted(before, m, 0, d2@, aimed@, *r2, *p, *content)]
        crate::game::blast::blasted(before, m, 0, d2@, aimed@, *r2, *p, *content)
            && after.is_marked(m, x, y, p.aoe_radius);
    assert(after.is_marked(m, x, y, p.aoe_radius));
}

/// Walking over drops takes all of them within reach, edge included, and no others; nothing is
/// lost on the way.
pub proof fn law_collecting(
    w: &mut World,
    d2: Vec<Scalar>,
    worth: Vec<Appraisal>,
    r2: &Scalar,
    content: &Content,
)
    requires
        old(w).wf(),
        d2@.len() == old(w).drops@.len(),
        worth@.len() == old(w).drops@.len(),
        !r2.is_nan(),
        call_ensures(World::collect_pickups, (w, d2, worth, r2, content), ()),
    ensures
        final(w).drops@.len() == d2@.filter(|d: Scalar| d.is_nan() || d.value() > r2.value()).len(),
        items_of(final(w).drops@).add(owned(final(w).rack())) =~= items_of(old(w).drops@).add(
            owned(old(w).rack()),
        ),
        final(w).enemies == old(w).enemies,
        final(w).kills == old(w).kills,
{
    let (before, after) = (*old(w), *final(w));
    law_pickups_keep_every_item(before, after, 0, d2@, worth@, *r2, *content);
    law_pickups_touch_nothing_else(before, after, 0, d2@, worth@, *r2, *content);
    assert(d2@.skip(0) =~= d2@);
}

/// A weapon that is picked up goes onto the rack if nothing of its archetype there ranks as
/// high, and what it replaces goes to the inventory; otherwise it goes there itself. It becomes
/// active if the rack was empty, if it ranks above the active one, or if it replaces that.
pub proof fn law_acquiring(
    w: &mut World,
    item: ItemInstance,
    a: &Appraisal,
    content: &Content,
    active: bool,
    s: int,
)
    requires
        old(w).wf(),
        call_ensures(World::acquire_item, (w, item, a, content), active),
        is_slot(old(w).rack(), item.base@, s),
        !a.rank.is_nan(),
        forall|j: int|
            0 <= j < old(w).loadout@.len() ==> !(#[trigger] old(w).loadout@[j]).rank.is_nan(),
    ensures
        ({
            let r = old(w).rack();
            let after = final(w).rack();
            let n = r.loadout.len();
            let base = weapon_base(content.bases@, item.base@);
            let worse = s < n && a.rank.value() <= r.loadout[s].rank.value();
            &&& base is None ==> !active && after == (Rack {
                inventory: r.inventory.push(item),
                ..r
            })
            &&& base is Some && worse ==> !active && after == (Rack {
                inventory: r.inventory.push(item),
                ..r
            })
            &&& base is Some && !worse ==> {
                &&& after.loadout.len() == if s < n {
                    n
                } else {
                    n + 1
                }
                &&& after.loadout[s].item == item
                &&& after.loadout[s].weapon == a.weapon
                &&& after.inventory == if s < n {
                    r.inventory.push(r.loadout[s].item)
                } else {
                    r.inventory
                }
                &&& active <==> n == 0 || s == r.active || r.loadout[r.active].rank.value()
                    < a.rank.value()
                &&& active ==> after.active == s && after.tunables.bullet_damage
                    == a.weapon.damage_per_shot
                &&& !active ==> after.active == r.active && after.tunables == r.tunables
            }
        }),
{
    if let Some(base) = weapon_base(content.bases@, item.base@) {
        law_pickups(old(w).rack(), racked(item, *a, base), s);
    }
}

/// A weapon that is armed becomes active, unless its archetype's slot holds one that ranks as
/// high, which then does. What is no weapon cannot be armed.
pub proof fn law_equipping(
    w: &mut World,
    item: ItemInstance,
    a: &Appraisal,
    content: &Content,
    armed: bool,
    s: int,
)
    requires
        old(w).wf(),
        call_ensures(World::equip, (w, item, a, content), armed),
        is_slot(old(w).rack(), item.base@, s),
        !a.rank.is_nan(),
        forall|j: int|
            0 <= j < old(w).loadout@.len() ==> !(#[trigger] old(w).loadout@[j]).rank.is_nan(),
    ensures
        ({
            let r = old(w).rack();
            let after = final(w).rack();
            &&& armed <==> weapon_base(content.bases@, item.base@) is Some
            &&& !armed ==> *final(w) == *old(w)
            &&& armed ==> {
                let kept = s < r.loadout.len() && a.rank.value() <= r.loadout[s].rank.value();
                &&& after.active == s
                &&& kept ==> after.loadout == r.loadout
                &&& !kept ==> after.loadout[s].item == item && after.loadout[s].weapon == a.weapon
                &&& after.inventory == r.inventory
                &&& knobs_of(after.tunables, r.tunables, after.loadout[s])
            }
        }),
{
    if let Some(base) = weapon_base(content.bases@, item.base@) {
        law_arming(old(w).rack(), racked(item, *a, base), s);
    }
}

/// A weapon that is chosen from the inventory becomes active however it ranks, and leaves the
/// inventory; what it replaces goes there.
pub proof fn law_equipping_from_inventory(
    w: &mut World,
    index: usize,
    a: &Appraisal,
    content: &Content,
    done: bool,
    s: int,
)
    requires
        old(w).wf(),
        call_ensures(World::equip_from_inventory, (w, index, a, content), done),
        index < old(w).inventory@.len(),
        is_slot(old(w).rack(), old(w).inventory@[index as int].base@, s),
    ensures
        ({
            let r = old(w).rack();
            let after = final(w).rack();
            let item = r.inventory[index as int];
            let rest = r.inventory.remove(index as int);
            &&& done <==> weapon_base(content.bases@, item.base@) is Some
            &&& !done ==> *final(w) == *old(w)
            &&& done ==> {
                &&& after.active == s
                &&& after.loadout[s].item == item
                &&& after.loadout[s].weapon == a.weapon
                &&& after.inventory == if s < r.loadout.len() {
                    rest.push(r.loadout[s].item)
                } else {
                    rest
                }
                &&& knobs_of(after.tunables, r.tunables, after.loadout[s])
            }
        }),
{
    let r = old(w).rack();
    let item = r.inventory[index as int];
    let without = Rack { inventory: r.inventory.remove(index as int), ..r };
    assert(is_slot(without, item.base@, s));
    if let Some(base) = weapon_base(content.bases@, item.base@) {
        law_choosing(without, racked(item, *a, base), s);
    }
}

/// Switching goes to a slot that exists; cycling goes round the rack, if it holds two weapons
/// or more. The weapon that is active then drives the knobs.
pub proof fn law_switching_and_cycling(
    w: &mut World,
    slot: usize,
    switched: bool,
    v: &mut World,
    dir: i32,
    cycled: bool,
)
    requires
        old(w).wf(),
        call_ensures(World::switch_weapon, (w, slot), switched),
        old(v).wf(),
        call_ensures(World::cycle_weapon, (v, dir), cycled),
    ensures
        switched <==> slot < old(w).loadout@.len(),
        !switched ==> final(w).rack() == old(w).rack(),
        switched ==> final(w).active == slot && knobs_of(
            final(w).tunables,
            old(w).tunables,
            old(w).loadout@[slot as int],
        ),
        final(w).loadout@ == old(w).loadout@,
        cycled <==> old(v).loadout@.len() >= 2,
        cycled ==> final(v).active == (old(v).active + dir) % (old(v).loadout@.len() as int),
        !cycled ==> final(v).active == old(v).active,
        final(v).loadout@ == old(v).loadout@,
        final(v).inventory@ == old(v).inventory@,
{
    law_switching(old(w).rack(), slot as int);
    let n = old(v).loadout@.len() as int;
    if n >= 2 {
        let at = (old(v).active + dir) % n;
        vstd::arithmetic::div_mod::lemma_mod_bound(old(v).active + dir, n);
        law_switching(old(v).rack(), at);
    }
}

/// What commands do: a move is noted; a shot is granted, in the pattern of the active weapon,
/// once the wait is over; nothing happens when the game is over.
pub proof fn law_commands(w: &mut World, cmd: Command, shot: Option<ShotRequest>)
    requires
        old(w).wf(),
        call_ensures(World::apply, (w, cmd), shot),
    ensures
        ({
            let before = *old(w);
            let after = *final(w);
            let wait = before.player_fire_cooldown;
            let ready = wait.is_nan() || wait.value() <= 0;
            &&& shot is Some <==> !before.game_over && cmd is Fire && ready
            &&& shot matches Some(s) ==> {
                &&& cmd == (Command::Fire { dx: s.dx, dy: s.dy })
                &&& before.loadout@.len() > 0 ==> s.profile
                    == before.loadout@[before.active as int].profile
                &&& before.loadout@.len() == 0 ==> s.profile == FireProfile::Single
            }
            &&& before.game_over || cmd is Fire ==> after == before
            &&& !before.game_over ==> (cmd matches Command::Move { dx, dy } ==> after == (World {
                move_intent: (dx, dy),
                ..before
            }))
            &&& !before.game_over ==> (cmd matches Command::SwitchWeapon { slot } ==> after.active
                == (if slot < before.loadout@.len() {
                slot
            } else {
                before.active
            }))
        }),
{
    let slot = cmd->slot;
    law_switching(old(w).rack(), slot as int);
}

/// A shot sends off as many projectiles as planned, from where the player stands, and starts
/// the wait for the next one.
pub proof fn law_launching(
    w: &mut World,
    plan: &ShotPlan,
    velocities: &Vec<(Scalar, Scalar)>,
    damage: Scalar,
    cooldown: Scalar,
    k: int,
)
    requires
        velocities@.len() == plan.pellets,
        call_ensures(World::launch, (w, plan, velocities, damage, cooldown), ()),
    ensures
        ({
            let before = *old(w);
            let after = *final(w);
            let n = before.projectiles@.len();
            &&& after.projectiles@.len() == n + plan.pellets
            &&& 0 <= k < n ==> after.projectiles@[k] == before.projectiles@[k]
            &&& 0 <= k < plan.pellets ==> {
                let p = after.projectiles@[n + k];
                &&& p.x == before.player.x && p.y == before.player.y
                &&& p.vx == velocities@[k].0 && p.vy == velocities@[k].1
                &&& p.damage == damage
                &&& p.aoe_radius == plan.aoe_radius
                &&& p.crit_chance == before.tunables.crit_chance
                &&& p.crit_multiplier == before.tunables.crit_multiplier
                &&& p.lifetime == before.tunables.bullet_lifetime
            }
            &&& after.player_fire_cooldown == cooldown
            &&& after.enemies == before.enemies
        }),
{
}

/// How a shot is made up.
pub proof fn law_planning(w: &World, profile: FireProfile, plan: ShotPlan)
    requires
        call_ensures(World::spawn_shot, (w, profile), plan),
    ensures
        plan.pellets >= 1,
        profile is Spread && w.tunables.spread_pellets > 0 ==> plan.pellets
            == w.tunables.spread_pellets,
        !(profile is Spread) ==> plan.pellets == 1,
        profile is Explosive ==> plan.aoe_radius == w.tunables.blast_radius && plan.speed_factor
            == w.tunables.blast_speed_factor,
        !(profile is Explosive) ==> plan.aoe_radius.bits == 0 && plan.speed_factor.bits
            == 0x3f80_0000,
        profile is Spread ==> plan.spread == w.tunables.spread_angle,
{
    law_shot_patterns(*w, profile);
}

/// A projectile whose time is up, or that meets an enemy or a wall, is gone; any other one
/// moves on.
pub proof fn law_flying(w: &mut World, i: usize, f: &Flight, impact: Impact)
    requires
        old(w).map.wf(),
        i < old(w).projectiles@.len(),
        call_ensures(World::advance_projectile, (w, i, f), impact),
    ensures
        ({
            let before = *old(w);
            let after = *final(w);
            let p = before.projectiles@[i as int];
            let over = !f.lifetime.is_nan() && f.lifetime.value() <= 0;
            let wall = !on_floor(before.map, f.x, f.y);
            let explosive = !p.aoe_radius.is_nan() && p.aoe_radius.value() > 0;
            &&& impact == Impact::Expired <==> over
            &&& impact == Impact::Flies <==> !over && f.enemy is None && !wall
            &&& impact == Impact::Wall <==> !over && f.enemy is None && wall && !explosive
            &&& impact == (Impact::Blast { shot: p }) <==> !over && (f.enemy is Some || wall)
                && explosive
            &&& impact == Impact::Flies ==> {
                let q = after.projectiles@[i as int];
                &&& after.projectiles@.len() == before.projectiles@.len()
                &&& q == (Projectile { x: f.x, y: f.y, lifetime: f.lifetime, ..p })
            }
            &&& impact != Impact::Flies ==> after.projectiles@.len() == before.projectiles@.len()
                - 1
            &&& after.enemies == before.enemies
        }),
{
    law_projectiles_end(
        old(w).projectiles@[i as int],
        *f,
        on_floor(old(w).map, f.x, f.y),
    );
}

/// Waits and lives run down to what is left, never below zero.
pub proof fn law_running_down(w: &mut World, left: Scalar, v: &mut World, life: Scalar)
    requires
        call_ensures(World::cool_down, (w, left), ()),
        call_ensures(World::drain_player, (v, life), ()),
    ensures
        !left.is_nan() && left.value() >= 0 ==> final(w).player_fire_cooldown == left,
        left.is_nan() || left.value() < 0 ==> final(w).player_fire_cooldown.bits == 0,
        final(w).player == old(w).player,
        !life.is_nan() && life.value() >= 0 ==> final(v).player.current_life == life,
        life.is_nan() || life.value() < 0 ==> final(v).player.current_life.bits == 0,
        final(v).player.max_life == old(v).player.max_life,
        final(v).player.x == old(v).player.x,
        final(v).enemies == old(v).enemies,
{
}

/// Blast markers whose time is up are gone, and the others have what is left of it.
pub proof fn law_markers(w: &mut World, ttl: &Vec<Scalar>)
    requires
        ttl@.len() == old(w).explosions@.len(),
        call_ensures(World::update_explosions, (w, ttl), ()),
    ensures
        final(w).explosions@ == Seq::new(
            old(w).explosions@.len(),
            |i: int| Explosion { ttl: ttl@[i], ..old(w).explosions@[i] },
        ).filter(|e: Explosion| !e.ttl.is_nan() && e.ttl.value() > 0),
        final(w).enemies == old(w).enemies,
{
    law_markers_age(old(w).explosions@, ttl@, old(w).explosions@.len() as int);
}

/// The swarm moves: whoever sees the player within range on a clear line wakes for good.
/// Whoever is awake goes where their step leads, as far as walls allow; nobody else moves.
pub proof fn law_the_swarm(
    w: &mut World,
    seen: &Vec<Sighting>,
    sight2: &Scalar,
    steps: &Vec<Step>,
    i: int,
)
    requires
        old(w).wf(),
        seen@.len() == old(w).enemies@.len(),
        steps@.len() == old(w).enemies@.len(),
        call_ensures(World::move_enemies, (w, seen, sight2, steps), ()),
        0 <= i < old(w).enemies@.len(),
    ensures
        ({
            let before = *old(w);
            let e = before.enemies@[i];
            let after = final(w).enemies@[i];
            let (see, step) = (seen@[i], steps@[i]);
            let spots = !see.d2.is_nan() && !sight2.is_nan() && see.d2.value() <= sight2.value()
                && see.clear;
            let awake = e.awake || spots;
            let side = on_floor(before.map, step.x, e.y);
            let x = if side {
                step.x
            } else {
                e.x
            };
            let along = on_floor(before.map, x, step.y);
            &&& final(w).enemies@.len() == before.enemies@.len()
            &&& after.awake == awake
            &&& !awake ==> after == e
            &&& awake ==> after.x == x && after.y == (if along {
                step.y
            } else {
                e.y
            })
            &&& awake ==> (step.facing matches Some(f) ==> after.facing == f)
            &&& awake && step.facing is None ==> after.facing == e.facing
            &&& after.id == e.id
            &&& after.combatant == e.combatant
            &&& final(w).player == before.player
        }),
{
    let e = old(w).enemies@[i];
    law_dormant_enemies_hold_position(old(w).map, e, seen@[i], *sight2, steps@[i]);
    let n = crate::game::motion::noticed(e, seen@[i], *sight2);
    law_walls_stop_one_axis(
        old(w).map,
        old(w).player,
        *sight2,
        *sight2,
        n,
        steps@[i],
    );
}

/// The player goes where they are heading, as far as walls allow, and loses the speed along
/// an axis that a wall blocks.
pub proof fn law_the_player_moves(w: &mut World, vx: Scalar, vy: Scalar, nx: Scalar, ny: Scalar)
    requires
        old(w).map.wf(),
        call_ensures(World::integrate_movement, (w, vx, vy, nx, ny), ()),
    ensures
        ({
            let p = old(w).player;
            let after = final(w).player;
            let side = on_floor(old(w).map, nx, p.y);
            let x = if side {
                nx
            } else {
                p.x
            };
            let along = on_floor(old(w).map, x, ny);
            &&& after.x == x
            &&& after.y == (if along {
                ny
            } else {
                p.y
            })
            &&& side ==> after.vx == vx
            &&& !side ==> after.vx.bits == 0
            &&& along ==> after.vy == vy
            &&& !along ==> after.vy.bits == 0
            &&& after.current_life == p.current_life
            &&& final(w).enemies == old(w).enemies
        }),
{
}

/// A line is clear if no point of it that is looked at lies off the floor. Whoever touches
/// the player is within reach, edge included; in god mode nobody counts.
pub proof fn law_lines_and_contact(
    w: &World,
    samples: &Vec<(Scalar, Scalar)>,
    clear: bool,
    d2: &Vec<Scalar>,
    r2: &Scalar,
    n: usize,
    k: int,
)
    requires
        w.map.wf(),
        !r2.is_nan(),
        call_ensures(World::line_clear, (w, samples), clear),
        call_ensures(World::touching, (w, d2, r2), n),
    ensures
        clear && 0 <= k < samples@.len() ==> on_floor(w.map, samples@[k].0, samples@[k].1),
        !clear ==> exists|k: int|
            0 <= k < samples@.len() && !on_floor(
                w.map,
                (#[trigger] samples@[k]).0,
                samples@[k].1,
            ),
        w.tunables.god_mode ==> n == 0,
        !w.tunables.god_mode ==> n == d2@.filter(
            |d: Scalar| !d.is_nan() && d.value() <= r2.value(),
        ).len(),
{
    law_reach_includes_its_edge(d2@, *r2, d2@.len() as int);
    assert(d2@.take(d2@.len() as int) =~= d2@);
}

/// What is decided on the way: enemies in sight and in range are headed for directly, the
/// others along the field; and what is too small to matter does not count.
pub proof fn law_decisions(
    d2: &Scalar,
    los2: &Scalar,
    clear: bool,
    a: Approach,
    length: &Scalar,
    pushed: bool,
    turned: bool,
    aimed: bool,
    radius: &Scalar,
    repelled: bool,
)
    requires
        call_ensures(approach, (d2, los2, clear), a),
        call_ensures(is_pushed, (length,), pushed),
        call_ensures(turns, (length,), turned),
        call_ensures(has_direction, (length,), aimed),
        call_ensures(repels, (d2, radius, los2), repelled),
        !d2.is_nan(),
        !los2.is_nan(),
        !length.is_nan(),
        !radius.is_nan(),
    ensures
        a == Approach::Beeline <==> d2.value() <= los2.value() && d2.value() > (Scalar {
            bits: 0x322b_cc77,
        }).value() && clear,
        pushed <==> length.value() > (Scalar { bits: 0x38d1_b717 }).value(),
        turned <==> length.value() > (Scalar { bits: 0x3586_37bd }).value(),
        aimed <==> length.value() >= (Scalar { bits: 0x3586_37bd }).value(),
        repelled <==> radius.value() > 0 && d2.value() > (Scalar { bits: 0x3586_37bd }).value()
            && d2.value() < los2.value(),
{
}

/// Who is met first: the one with the lowest index among those within reach, edge included.
pub proof fn law_first_in_reach(d2: &Vec<Scalar>, r2: &Scalar, i: usize, k: int)
    requires
        call_ensures(first_within, (d2, r2), Some(i)),
        0 <= k < d2@.len(),
        !d2@[k].is_nan(),
        !r2.is_nan(),
    ensures
        i < d2@.len(),
        !d2@[i as int].is_nan() && d2@[i as int].value() <= r2.value(),
        d2@[k].value() <= r2.value() ==> i <= k,
{
    if k < i {
        assert(!crate::game::nearby::within(d2@[k], *r2));
    }
}

/// The game ends once no life is left, and stays over. The move that was asked for is used up
/// by asking for it. Every part of a tick is followed by the next.
pub proof fn law_small_steps(
    w: &mut World,
    v: &mut World,
    intent: (Scalar, Scalar),
    u: &World,
    first: TickPhase,
    phase: TickPhase,
    next: TickPhase,
)
    requires
        call_ensures(World::settle_game_over, (w,), ()),
        call_ensures(World::take_intent, (v,), intent),
        call_ensures(World::tick, (u,), first),
        call_ensures(TickPhase::next, (phase,), next),
    ensures
        final(w).game_over <==> old(w).game_over || (!old(w).player.current_life.is_nan()
            && old(w).player.current_life.value() <= 0),
        final(w).player == old(w).player,
        intent == old(v).move_intent,
        final(v).move_intent.0.bits == 0 && final(v).move_intent.1.bits == 0,
        u.game_over ==> first == TickPhase::Done,
        !u.game_over ==> first == TickPhase::Cooldown,
        phase == TickPhase::Cooldown ==> next == TickPhase::Movement,
        phase == TickPhase::Movement ==> next == TickPhase::Flow,
        phase == TickPhase::Flow ==> next == TickPhase::Projectiles,
        phase == TickPhase::Projectiles ==> next == TickPhase::Explosions,
        phase == TickPhase::Explosions ==> next == TickPhase::Enemies,
        phase == TickPhase::Enemies ==> next == TickPhase::Contact,
        phase == TickPhase::Contact ==> next == TickPhase::Pickups,
        phase == TickPhase::Pickups ==> next == TickPhase::Spawning,
        phase == TickPhase::Spawning ==> next == TickPhase::Outcome,
        phase == TickPhase::Outcome ==> next == TickPhase::Done,
{
}

/// A new world is on its map, with the field leading to the player and nobody else around;
/// the field follows the player whenever they change tiles.
pub proof fn law_fields_follow_the_player(map: TileMap, fresh: World, w: &mut World)
    requires
        map.wf(),
        call_ensures(World::new, (map,), fresh),
        old(w).wf(),
        call_ensures(World::update_flow, (w,), ()),
    ensures
        fresh.map == map,
        fresh.enemies@.len() == 0,
        fresh.flow.measures(map, (map.player_spawn.0 as int, map.player_spawn.1 as int)),
        final(w).flow.measures(
            old(w).map,
            (old(w).player.x.whole_part(), old(w).player.y.whole_part()),
        ),
        final(w).player == old(w).player,
        final(w).enemies == old(w).enemies,
{
}

/// What can be asked for in debugging: enemies and drops are cleared, everyone is woken, the
/// player is back at full life and the game goes on.
pub proof fn law_debugging(
    a: &mut World,
    b: &mut World,
    c: &mut World,
    d: &mut World,
    i: int,
)
    requires
        old(a).wf(),
        call_ensures(World::debug_clear_enemies, (a,), ()),
        old(b).wf(),
        call_ensures(World::debug_clear_drops, (b,), ()),
        old(c).wf(),
        call_ensures(World::debug_wake_all, (c,), ()),
        old(d).wf(),
        call_ensures(World::debug_revive, (d,), ()),
    ensures
        final(a).enemies@.len() == 0 && final(a).drops == old(a).drops,
        final(b).drops@.len() == 0 && final(b).enemies == old(b).enemies,
        final(c).enemies@.len() == old(c).enemies@.len(),
        0 <= i < old(c).enemies@.len() ==> final(c).enemies@[i] == (EnemyInstance {
            awake: true,
            ..old(c).enemies@[i]
        }),
        final(d).player.current_life == old(d).player.max_life && !final(d).game_over,
{
}

/// One enemy appears where it is asked for, if that is floor and there is any enemy content.
pub proof fn law_spawning_at(
    w: &mut World,
    archetype: usize,
    x: Scalar,
    y: Scalar,
    content: &Content,
    spawned: bool,
)
    requires
        old(w).wf(),
        old(w).next_entity_id < u64::MAX,
        call_ensures(World::debug_spawn_at, (w, archetype, x, y, content), spawned),
    ensures
        spawned <==> content.enemies@.len() > 0 && on_floor(old(w).map, x, y),
        !spawned ==> *final(w) == *old(w),
        spawned ==> {
            let e = final(w).enemies@.last();
            &&& final(w).enemies@.len() == old(w).enemies@.len() + 1
            &&& e.x == x && e.y == y && !e.awake
            &&& e.id == old(w).next_entity_id
            &&& e.archetype == if archetype < content.enemies@.len() {
                archetype as int
            } else {
                content.enemies@.len() - 1
            }
        },
{
}

/// One drop is collected: it leaves the ground for the rack or the inventory, and is announced.
pub proof fn law_collecting_one(w: &mut World, i: usize, a: &Appraisal, content: &Content, j: int)
    requires
        old(w).wf(),
        i < old(w).drops@.len(),
        call_ensures(World::collect_drop, (w, i, a, content), ()),
    ensures
        ({
            let before = *old(w);
            let after = *final(w);
            let item = before.drops@[i as int].item;
            &&& after.drops@.len() == before.drops@.len() - 1
            &&& 0 <= j < before.drops@.len() && j != i ==> after.drops@.contains(before.drops@[j])
            &&& weapon_base(content.bases@, item.base@) is None ==> after.inventory@
                == before.inventory@.push(item) && after.loadout@ == before.loadout@
            &&& after.last_pickup is Some
            &&& after.enemies == before.enemies
        }),
{
    law_one_pickup(*old(w), *final(w), i as int, *a, *content, j);
}

/// Enemies that are asked for come as asked for: so many of one archetype, as far as there are
/// tiles far enough away.
pub proof fn law_spawning_on_request(
    w: &mut World,
    archetype: usize,
    count: usize,
    least: u32,
    content: &Content,
    i: int,
)
    requires
        old(w).wf(),
        old(w).event_seq < u64::MAX,
        old(w).next_entity_id + count <= u64::MAX,
        0 < content.enemies@.len(),
        call_ensures(World::debug_spawn, (w, archetype, count, least, content), ()),
    ensures
        ({
            let before = *old(w);
            let after = *final(w);
            let cells = far_cells(before.flow, least).len();
            let live = before.enemies@.len();
            &&& after.enemies@.len() == live + if count <= cells {
                count as int
            } else {
                cells as int
            }
            &&& 0 <= i < live ==> after.enemies@[i] == before.enemies@[i]
            &&& live <= i < after.enemies@.len() ==> after.enemies@[i].archetype == if archetype
                < content.enemies@.len() {
                archetype as int
            } else {
                content.enemies@.len() - 1
            }
            &&& after.event_seq == before.event_seq + 1
        }),
{
    let before = *old(w);
    assert(content.enemies.len() == content.enemies@.len());
    law_debug_spawns(
        before.event_rng(),
        before,
        *content,
        archetype,
        count as nat,
        least,
        i - before.enemies@.len(),
    );
}

} // verus!
