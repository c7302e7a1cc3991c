//! Which level a run starts in, and how it starts.

use vstd::prelude::*;

use crate::game::entity::{Appraisal, Content};
use crate::game::rack::{is_stock, racked, weapon_base};
use crate::game::tunables::Tunables;
use crate::game::world::World;
use crate::procgen::tilemap::TileMap;
use crate::rules::item::ItemInstance;
use crate::text::same_text;

verus! {

/// The seed of a run that was given none.
pub const DEFAULT_SEED: u64 = 42;

/// Starting level: the dungeon, or the open room for controlled testing, with or without
/// pillars.
#[derive(Debug, Clone, Copy, PartialEq, Eq, Structural)]
pub enum Level {
    Bsp,
    Arena,
    ArenaEmpty,
}

/// The level that a name stands for; any name but those of the open rooms stands for the
/// dungeon.
pub open spec fn level_named(s: Seq<char>) -> Level {
    if s == "arena"@ {
        Level::Arena
    } else if s == "arena-empty"@ {
        Level::ArenaEmpty
    } else {
        Level::Bsp
    }
}

/// Parse a level name. Anything unknown is the dungeon.
pub fn level_from_str(s: &str) -> (l: Level)
    ensures
        l == level_named(s@),
{
    if same_text(s, "arena") {
        Level::Arena
    } else if same_text(s, "arena-empty") {
        Level::ArenaEmpty
    } else {
        Level::Bsp
    }
}

/// The level and the seed of a run: what the command line says comes first, then what the
/// environment says, then the dungeon and the default seed.
pub fn resolve_run(
    level_arg: Option<Level>,
    level_env: Option<&str>,
    seed_arg: Option<u64>,
    seed_env: Option<u64>,
) -> (run: (Level, u64))
    ensures
        run.0 == match (level_arg, level_env) {
            (Some(l), _) => l,
            (None, Some(s)) => level_named(s@),
            (None, None) => Level::Bsp,
        },
        run.1 == match (seed_arg, seed_env) {
            (Some(seed), _) => seed,
            (None, Some(seed)) => seed,
            (None, None) => DEFAULT_SEED,
        },
{
    let level = match level_arg {
        Some(l) => l,
        None => match level_env {
            Some(s) => level_from_str(s),
            None => Level::Bsp,
        },
    };
    let seed: u64 = match seed_arg {
        Some(seed) => seed,
        None => match seed_env {
            Some(seed) => seed,
            None => DEFAULT_SEED,
        },
    };
    (level, seed)
}

/// The knobs that a run starts with: the default ones, but no waves in the open rooms.
pub open spec fn starting(t: Tunables, level: Level) -> bool {
    &&& Tunables { auto_spawn: true, ..t }.is_standard()
    &&& t.auto_spawn == (level == Level::Bsp)
}

/// A world to start a run in: on the given map, with the stock pistol in hand if there is
/// one, appraised at `a`. In the open rooms the waves are suspended, so that enemies appear
/// only when they are asked for.
pub fn new_world(level: Level, map: TileMap, a: &Appraisal, content: &Content) -> (w: World)
    requires
        map.wf(),
    ensures
        w.wf(),
        exists|fresh: World|
            {
                &&& #[trigger] fresh.starts_on(map)
                &&& starting(fresh.tunables, level)
                &&& w.same_but_rack(fresh)
                &&& match weapon_base(content.bases@, "pistol"@) {
                    Some(base) => exists|item: ItemInstance| #[trigger]
                        is_stock(item, "pistol"@) && w.rack() == fresh.rack().armed(
                            racked(item, *a, base),
                        ),
                    None => w.rack() == fresh.rack(),
                }
            },
{
    let mut world = World::new(map);
    match level {
        Level::Bsp => {},
        Level::Arena | Level::ArenaEmpty => {
            world.tunables.auto_spawn = false;
        },
    }
    let ghost fresh = world;
    assert(Tunables { auto_spawn: true, ..fresh.tunables }.is_standard());
    world.equip_base("pistol", a, content);
    assert(fresh.starts_on(map));
    world
}

impl World {
    /// Swap the world onto a new map. The tunables are kept; everything else starts
    /// afresh — a fresh level, not a checkpoint.
    pub fn reload_world(&mut self, map: TileMap)
        requires
            map.wf(),
        ensures
            final(self).wf(),
            final(self).starts_on(map),
            final(self).tunables == old(self).tunables,
    {
        let saved: Tunables = self.tunables;
        *self = World::new(map);
        self.tunables = saved;
    }
}

/// Which level a name stands for: only the two names of the open rooms stand for these.
pub proof fn law_level_names(s: Seq<char>)
    ensures
        level_named(s) == Level::Arena <==> s == "arena"@,
        level_named(s) == Level::ArenaEmpty <==> s == "arena-empty"@ && s != "arena"@,
        level_named(s) == Level::Bsp <==> s != "arena"@ && s != "arena-empty"@,
{
}

/// A run starts with the default knobs, but in the open rooms no waves come.
pub proof fn law_waves_come_in_the_dungeon_only(t: Tunables, level: Level)
    requires
        starting(t, level),
    ensures
        t.auto_spawn <==> level == Level::Bsp,
        t.spawn_batch == 4,
        t.max_enemies == 40,
        t.bullet_damage.bits == 0x4140_0000,
        t.player_speed.bits == 0x40c0_0000,
        !t.god_mode,
{
}

} // verus!
