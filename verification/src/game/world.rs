//! The world: everything that a running game is made of.
//!
//! ## Determinism
//!
//! Every drop is reproducible from `(world_seed, event_id)`. A world holds its seed and a
//! counter of events, and makes a fresh generator for each event — each spawn batch, each
//! hit, each loot roll — rather than threading one long-lived stream. Every spawned enemy
//! and dropped item also carries a stable id of its own.

use vstd::arithmetic::power2::{lemma_pow2_pos, pow2};
use vstd::prelude::*;

use crate::center::{center, center_of, law_centers_are_halfway};
use crate::game::entity::{
    EnemyInstance, EquippedWeapon, Explosion, LootDrop, Player, Projectile,
};
use crate::game::tunables::{Tunables, SPAWN_INTERVAL};
use crate::procgen::flow::{cell_of, FlowField};
use crate::procgen::grid::Cell;
use crate::procgen::tilemap::{Tile, TileMap};
use crate::rng::{RngState, SeededRng};
use crate::rules::combat::HitResult;
use crate::rules::item::ItemInstance;
use crate::scalar::Scalar;

verus! {

#[derive(Debug)]
pub struct World {
    pub map: TileMap,
    pub player: Player,
    pub projectiles: Vec<Projectile>,
    /// Transient rocket-blast markers for rendering.
    pub explosions: Vec<Explosion>,
    pub enemies: Vec<EnemyInstance>,
    pub drops: Vec<LootDrop>,
    /// Items the player has walked over and picked up.
    pub inventory: Vec<ItemInstance>,
    /// The player's switchable weapon rack, one weapon per archetype, in acquisition
    /// order. Changed through the rack's own operations only, so that `active` and the
    /// tunables stay in lockstep with it.
    pub loadout: Vec<EquippedWeapon>,
    /// Index into the rack of the active weapon. Zero on an empty rack.
    pub active: usize,
    /// Seconds until the player's next shot becomes available.
    pub player_fire_cooldown: Scalar,
    pub kills: u32,
    pub xp: u64,
    /// Display string for the most recent pickup.
    pub last_pickup: Option<String>,
    /// Set once the player's life hits zero.
    pub game_over: bool,
    pub tunables: Tunables,
    /// Outcome of the most recent projectile→enemy hit.
    pub last_hit: Option<HitResult>,
    pub world_seed: u64,
    pub event_seq: u64,
    pub next_entity_id: u64,
    pub flow: FlowField,
    /// The player tile the current `flow` was computed for.
    pub flow_goal: (u32, u32),
    /// This frame's requested move direction.
    pub move_intent: (Scalar, Scalar),
    pub spawn_timer: Scalar,
}

/// The seed of the generator of one event: the world's seed and the event's number, mixed
/// so that neighboring events have unrelated generators.
pub open spec fn event_seed(world_seed: u64, id: u64) -> u64 {
    let a = world_seed ^ id.wrapping_mul(0x9E37_79B9_7F4A_7C15u64);
    let b = (a ^ (a >> 30u64)).wrapping_mul(0xBF58_476D_1CE4_E5B9u64);
    let c = (b ^ (b >> 27u64)).wrapping_mul(0x94D0_49BB_1331_11EBu64);
    c ^ (c >> 31u64)
}

/// Whether no two weapons on a rack are of the same archetype.
pub open spec fn one_per_archetype(rack: Seq<EquippedWeapon>) -> bool {
    forall|i: int, j: int|
        0 <= i < j < rack.len() ==> (#[trigger] rack[i]).item.base@ != (#[trigger] rack[j]).item.base@
}

/// Whether the entities' ids are all below `next`, and no two of them are the same.
pub open spec fn ids_unique(
    enemies: Seq<EnemyInstance>,
    drops: Seq<LootDrop>,
    next: u64,
) -> bool {
    &&& forall|i: int| 0 <= i < enemies.len() ==> (#[trigger] enemies[i]).id < next
    &&& forall|i: int| 0 <= i < drops.len() ==> (#[trigger] drops[i]).id < next
    &&& forall|i: int, j: int|
        0 <= i < j < enemies.len() ==> (#[trigger] enemies[i]).id != (#[trigger] enemies[j]).id
    &&& forall|i: int, j: int|
        0 <= i < j < drops.len() ==> (#[trigger] drops[i]).id != (#[trigger] drops[j]).id
    &&& forall|i: int, j: int|
        0 <= i < enemies.len() && 0 <= j < drops.len() ==> (#[trigger] enemies[i]).id != (
        #[trigger] drops[j]).id
}

/// The tile that a point lies in.
pub open spec fn tile_of(x: Scalar, y: Scalar) -> Cell {
    (x.whole_part(), y.whole_part())
}

/// Whether a point lies on floor. Points left of or above the map do not.
pub open spec fn on_floor(map: TileMap, x: Scalar, y: Scalar) -> bool {
    &&& !x.is_nan() && x.value() >= 0
    &&& !y.is_nan() && y.value() >= 0
    &&& map.tile(tile_of(x, y)) == Tile::Floor
}

/// Whether `(x, y)` (continuous tile coords) sits on a `Floor` tile — the shared
/// passability test for the player, projectiles, and enemy steering.
pub fn floor_at(map: &TileMap, x: &Scalar, y: &Scalar) -> (r: bool)
    requires
        map.wf(),
    ensures
        r == on_floor(*map, *x, *y),
{
    let zero = Scalar::zero();
    if !zero.le(x) || !zero.le(y) {
        return false;
    }
    match map.tile_at(x.truncate(), y.truncate()) {
        Tile::Floor => true,
        Tile::Wall => false,
    }
}

/// Where something ends up that moves from `(x, y)` towards `(nx, ny)`: along each axis it
/// moves if that leads to floor, the horizontal one first, so that it slides along walls.
pub open spec fn slid(
    map: TileMap,
    x: Scalar,
    y: Scalar,
    nx: Scalar,
    ny: Scalar,
) -> (Scalar, Scalar) {
    let x1 = if on_floor(map, nx, y) {
        nx
    } else {
        x
    };
    let y1 = if on_floor(map, x1, ny) {
        ny
    } else {
        y
    };
    (x1, y1)
}

/// Moves something from `(x, y)` towards `(nx, ny)`, axis by axis, sliding along walls.
pub fn slide(map: &TileMap, x: Scalar, y: Scalar, nx: Scalar, ny: Scalar) -> (p: (Scalar, Scalar))
    requires
        map.wf(),
    ensures
        p == slid(*map, x, y, nx, ny),
{
    let x1 = if floor_at(map, &nx, &y) { nx } else { x };
    let y1 = if floor_at(map, &x1, &ny) { ny } else { y };
    (x1, y1)
}

/// What stands on floor is still on floor after it slid.
pub proof fn law_sliding_stays_on_floor(
    map: TileMap,
    x: Scalar,
    y: Scalar,
    nx: Scalar,
    ny: Scalar,
)
    requires
        on_floor(map, x, y),
    ensures
        on_floor(map, slid(map, x, y, nx, ny).0, slid(map, x, y, nx, ny).1),
{
}

/// Whoever stands in the middle of a floor tile stands on floor.
pub proof fn law_middle_of_floor_is_floor(map: TileMap, x: u32, y: u32)
    requires
        x < 0x80_0000,
        y < 0x80_0000,
        map.tile((x as int, y as int)) == Tile::Floor,
    ensures
        on_floor(map, center(x), center(y)),
        tile_of(center(x), center(y)) == (x as int, y as int),
{
    law_centers_are_halfway(x);
    law_centers_are_halfway(y);
    lemma_pow2_pos(148);
    assert((2 * x + 1) * pow2(148) >= 0) by (nonlinear_arith)
        requires
            pow2(148) >= 0,
            x >= 0,
    ;
    assert((2 * y + 1) * pow2(148) >= 0) by (nonlinear_arith)
        requires
            pow2(148) >= 0,
            y >= 0,
    ;
}

impl World {
    /// What holds of every world: its map and flow field are well formed, and the field
    /// leads to the tile it was computed for; the rack holds one weapon per archetype and
    /// the active slot is one of it; and no two entities share an id.
    pub open spec fn wf(self) -> bool {
        &&& self.map.wf()
        &&& self.flow.measures(self.map, cell_of(self.flow_goal))
        &&& one_per_archetype(self.loadout@)
        &&& self.loadout@.len() == 0 ==> self.active == 0
        &&& self.loadout@.len() > 0 ==> self.active < self.loadout@.len()
        &&& ids_unique(self.enemies@, self.drops@, self.next_entity_id)
    }

    /// Whether nothing has happened yet in a world on the given map: the player stands in
    /// the middle of the spawn tile, and the first wave is one interval away.
    pub open spec fn starts_on(self, map: TileMap) -> bool {
        &&& self.map == map
        &&& self.player == Player::fresh(center(map.player_spawn.0), center(map.player_spawn.1))
        &&& self.projectiles@.len() == 0
        &&& self.explosions@.len() == 0
        &&& self.enemies@.len() == 0
        &&& self.drops@.len() == 0
        &&& self.inventory@.len() == 0
        &&& self.loadout@.len() == 0
        &&& self.active == 0
        &&& self.player_fire_cooldown == (Scalar { bits: 0 })
        &&& self.kills == 0
        &&& self.xp == 0
        &&& self.last_pickup is None
        &&& !self.game_over
        &&& self.last_hit is None
        &&& self.world_seed == map.seed
        &&& self.event_seq == 0
        &&& self.next_entity_id == 0
        &&& self.flow_goal == map.player_spawn
        &&& self.move_intent == (Scalar { bits: 0 }, Scalar { bits: 0 })
        &&& self.spawn_timer == (Scalar { bits: SPAWN_INTERVAL })
    }

    /// A new world on the given map, with the player at its spawn.
    pub fn new(map: TileMap) -> (w: World)
        requires
            map.wf(),
        ensures
            w.wf(),
            w.starts_on(map),
            w.tunables.is_standard(),
    {
        let goal = map.player_spawn;
        let player = Player::at(center_of(goal.0), center_of(goal.1));
        let world_seed: u64 = map.seed;
        let flow = FlowField::compute(&map, goal);
        World {
            player,
            projectiles: Vec::new(),
            explosions: Vec::new(),
            enemies: Vec::new(),
            drops: Vec::new(),
            inventory: Vec::new(),
            loadout: Vec::new(),
            active: 0,
            player_fire_cooldown: Scalar { bits: 0 },
            kills: 0,
            xp: 0,
            last_pickup: None,
            game_over: false,
            tunables: Tunables::default(),
            last_hit: None,
            world_seed,
            event_seq: 0,
            next_entity_id: 0,
            flow,
            flow_goal: goal,
            move_intent: (Scalar { bits: 0 }, Scalar { bits: 0 }),
            spawn_timer: Scalar { bits: SPAWN_INTERVAL },
            map,
        }
    }

    /// The generator of the next event.
    pub open spec fn event_rng(self) -> RngState {
        RngState::fresh(event_seed(self.world_seed, self.event_seq))
    }

    /// A fresh generator keyed on `(world_seed, event_seq)`, advancing the event counter.
    /// This is the reproducibility seam: any single event (a spawn wave, a hit, a drop)
    /// replays from its `(world_seed, event_id)`.
    pub fn next_event_rng(&mut self) -> (rng: SeededRng)
        requires
            old(self).event_seq < u64::MAX,
        ensures
            rng@ == old(self).event_rng(),
            *final(self) == (World { event_seq: (old(self).event_seq + 1) as u64, ..*old(self) }),
    {
        let id: u64 = self.event_seq;
        self.event_seq = self.event_seq + 1;
        let a: u64 = self.world_seed ^ id.wrapping_mul(0x9E37_79B9_7F4A_7C15);
        let b: u64 = (a ^ (a >> 30u64)).wrapping_mul(0xBF58_476D_1CE4_E5B9);
        let c: u64 = (b ^ (b >> 27u64)).wrapping_mul(0x94D0_49BB_1331_11EB);
        SeededRng::seed_from_u64(c ^ (c >> 31u64))
    }

    /// Hands out an entity id that was not handed out before.
    pub fn alloc_id(&mut self) -> (id: u64)
        requires
            old(self).next_entity_id < u64::MAX,
        ensures
            id == old(self).next_entity_id,
            *final(self) == (World {
                next_entity_id: (old(self).next_entity_id + 1) as u64,
                ..*old(self)
            }),
    {
        let id: u64 = self.next_entity_id;
        self.next_entity_id = self.next_entity_id + 1;
        id
    }

    pub fn can_stand(&self, x: &Scalar, y: &Scalar) -> (r: bool)
        requires
            self.map.wf(),
        ensures
            r == on_floor(self.map, *x, *y),
    {
        floor_at(&self.map, x, y)
    }

    /// Recompute the flow field only when the player crosses a tile boundary.
    pub fn update_flow(&mut self)
        requires
            old(self).wf(),
        ensures
            final(self).wf(),
            cell_of(final(self).flow_goal) == tile_of(old(self).player.x, old(self).player.y),
            cell_of(old(self).flow_goal) == tile_of(old(self).player.x, old(self).player.y)
                ==> *final(self) == *old(self),
            *final(self) == (World {
                flow: final(self).flow,
                flow_goal: final(self).flow_goal,
                ..*old(self)
            }),
    {
        let tile: (u32, u32) = (self.player.x.truncate(), self.player.y.truncate());
        if tile.0 != self.flow_goal.0 || tile.1 != self.flow_goal.1 {
            self.flow = FlowField::compute(&self.map, tile);
            self.flow_goal = tile;
        }
    }

    /// Read-only access to the current flow field, for the debug pathing visualization.
    pub fn flow(&self) -> (f: &FlowField)
        ensures
            *f == self.flow,
    {
        &self.flow
    }

    /// Ends the game once no life is left. Part of every tick.
    pub fn settle_game_over(&mut self)
        ensures
            *final(self) == (World {
                game_over: old(self).game_over || (!old(self).player.current_life.is_nan()
                    && old(self).player.current_life.value() <= 0),
                ..*old(self)
            }),
    {
        if self.player.current_life.le(&Scalar::zero()) {
            self.game_over = true;
        }
    }
}

/// Where a point lies: on the tile that its coordinates fall into, which are counted in
/// 2^-149ths of a tile. A point left of or above the map is never on floor.
pub proof fn law_points_lie_on_their_tile(map: TileMap, x: Scalar, y: Scalar)
    requires
        !x.is_nan(),
        !y.is_nan(),
    ensures
        x.value() < 0 || y.value() < 0 ==> !on_floor(map, x, y),
        0 <= x.value() < u32::MAX * pow2(149) && 0 <= y.value() < u32::MAX * pow2(149) ==> (
        on_floor(map, x, y) <==> map.tile(
            (x.value() / (pow2(149) as int), y.value() / (pow2(149) as int)),
        ) == Tile::Floor),
{
    lemma_pow2_pos(149);
    if x.value() >= 0 && y.value() >= 0 {
        lemma_whole_part(x);
        lemma_whole_part(y);
    }
}

proof fn lemma_whole_part(x: Scalar)
    requires
        !x.is_nan(),
        x.value() >= 0,
    ensures
        x.value() < u32::MAX * pow2(149) ==> x.whole_part() == x.value() / (pow2(149) as int),
{
    lemma_pow2_pos(149);
    let p = pow2(149) as int;
    crate::scalar::lemma_magnitude_order(0, x.body());
    crate::scalar::lemma_magnitude_order(0, 0);
    if x.is_negative() {
        assert(x.value() == 0);
        assert(0int / p == 0) by (nonlinear_arith)
            requires
                p > 0,
        ;
    } else if x.value() < u32::MAX * p {
        let q = x.value() / p;
        assert(q <= u32::MAX) by (nonlinear_arith)
            requires
                p > 0,
                x.value() < u32::MAX * p,
                q == x.value() / p,
        ;
    }
}

/// How things slide. Where the whole way leads to floor, it is gone. Where the way to the
/// side does not, only the way up or down is gone, if that leads to floor; and where the way
/// up or down does not, only the way to the side is. Where nothing does, nothing moves.
pub proof fn law_sliding(map: TileMap, x: Scalar, y: Scalar, nx: Scalar, ny: Scalar)
    ensures
        ({
            let end = slid(map, x, y, nx, ny);
            let side = on_floor(map, nx, y);
            &&& side && on_floor(map, nx, ny) ==> end == (nx, ny)
            &&& side && !on_floor(map, nx, ny) ==> end == (nx, y)
            &&& !side && on_floor(map, x, ny) ==> end == (x, ny)
            &&& !side && !on_floor(map, x, ny) ==> end == (x, y)
        }),
{
}

/// How a world starts: on its map, under the seed of the map, with the player unhurt in the
/// middle of the spawn tile and nothing else in it; nothing has happened yet, and the first
/// wave is three seconds away.
pub proof fn law_worlds_start_empty(w: World, map: TileMap)
    requires
        w.starts_on(map),
        map.player_spawn.0 < 0x80_0000,
        map.player_spawn.1 < 0x80_0000,
    ensures
        w.map == map,
        w.world_seed == map.seed,
        w.player.x.value() == (2 * map.player_spawn.0 + 1) * pow2(148),
        w.player.y.value() == (2 * map.player_spawn.1 + 1) * pow2(148),
        w.player.current_life == w.player.max_life,
        w.enemies@.len() + w.projectiles@.len() + w.explosions@.len() + w.drops@.len() == 0,
        w.inventory@.len() + w.loadout@.len() == 0,
        w.kills + w.xp + w.event_seq + w.next_entity_id == 0,
        w.player_fire_cooldown.bits == 0,
        w.spawn_timer.bits == 0x4040_0000,
        w.flow_goal == map.player_spawn,
        !w.game_over,
{
    law_centers_are_halfway(map.player_spawn.0);
    law_centers_are_halfway(map.player_spawn.1);
}

/// What holds of every world: the active slot is one of the rack, no two weapons there are of
/// one archetype, and no two entities share an id, nor has any of them the next one.
pub proof fn law_worlds_are_sound(w: World, i: int, j: int)
    requires
        w.wf(),
    ensures
        w.loadout@.len() > 0 ==> w.active < w.loadout@.len(),
        0 <= i < j < w.loadout@.len() ==> w.loadout@[i].item.base@ != w.loadout@[j].item.base@,
        0 <= i < j < w.enemies@.len() ==> w.enemies@[i].id != w.enemies@[j].id,
        0 <= i < j < w.drops@.len() ==> w.drops@[i].id != w.drops@[j].id,
        0 <= i < w.enemies@.len() && 0 <= j < w.drops@.len() ==> w.enemies@[i].id
            != w.drops@[j].id,
        0 <= i < w.enemies@.len() ==> w.enemies@[i].id < w.next_entity_id,
        0 <= i < w.drops@.len() ==> w.drops@[i].id < w.next_entity_id,
        w.flow.measures(w.map, (w.flow_goal.0 as int, w.flow_goal.1 as int)),
{
}

} // verus!
