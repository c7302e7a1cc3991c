//! What lives in the world, and what the player asks of it.

use vstd::prelude::*;

use crate::game::tunables::{
    BLAST_RADIUS, BLAST_SPEED_FACTOR, PLAYER_MAX_LIFE, SPREAD_ANGLE, SPREAD_PELLETS,
};
use crate::rules::affix::Affix;
use crate::rules::combat::{Combatant, Weapon};
use crate::rules::enemy::Enemy;
use crate::rules::item::{BaseItem, ItemInstance};
use crate::scalar::Scalar;
use crate::text::same_text;

verus! {

#[derive(Debug, Clone, Copy, PartialEq, Eq, Structural)]
pub struct Player {
    /// Position in tile coordinates, with sub-tile precision.
    pub x: Scalar,
    pub y: Scalar,
    /// Current velocity in tiles/sec.
    pub vx: Scalar,
    pub vy: Scalar,
    pub max_life: Scalar,
    pub current_life: Scalar,
}

impl Player {
    /// A player at full life, standing still at the given place.
    pub open spec fn fresh(x: Scalar, y: Scalar) -> Player {
        Player {
            x,
            y,
            vx: Scalar { bits: 0 },
            vy: Scalar { bits: 0 },
            max_life: Scalar { bits: PLAYER_MAX_LIFE },
            current_life: Scalar { bits: PLAYER_MAX_LIFE },
        }
    }

    pub fn at(x: Scalar, y: Scalar) -> (p: Player)
        ensures
            p == Player::fresh(x, y),
    {
        Player {
            x,
            y,
            vx: Scalar { bits: 0 },
            vy: Scalar { bits: 0 },
            max_life: Scalar { bits: PLAYER_MAX_LIFE },
            current_life: Scalar { bits: PLAYER_MAX_LIFE },
        }
    }
}

#[derive(Debug, Clone, Copy, PartialEq, Eq, Structural)]
pub struct Projectile {
    pub x: Scalar,
    pub y: Scalar,
    /// Velocity in tiles per second.
    pub vx: Scalar,
    pub vy: Scalar,
    pub damage: Scalar,
    /// Crit chance and multiplier, kept from the time of firing.
    pub crit_chance: Scalar,
    pub crit_multiplier: Scalar,
    /// Blast radius in tiles. Zero is an ordinary single-target shot; a positive value
    /// makes the shot detonate on impact.
    pub aoe_radius: Scalar,
    /// Seconds remaining before forced despawn.
    pub lifetime: Scalar,
}

impl Projectile {
    /// Whether the shot detonates on impact.
    pub open spec fn is_explosive(self) -> bool {
        !self.aoe_radius.is_nan() && self.aoe_radius.value() > 0
    }

    /// The one-shot weapon that a projectile resolves its hit through. It fires no more,
    /// so its rate is zero.
    pub open spec fn as_weapon(self) -> Weapon {
        Weapon {
            damage_per_shot: self.damage,
            fire_rate: Scalar { bits: 0 },
            crit_chance: self.crit_chance,
            crit_multiplier: self.crit_multiplier,
        }
    }
}

/// The one-shot weapon that a projectile resolves its hit through.
pub fn projectile_weapon(p: &Projectile) -> (w: Weapon)
    ensures
        w == p.as_weapon(),
{
    Weapon {
        damage_per_shot: p.damage,
        fire_rate: Scalar { bits: 0 },
        crit_chance: p.crit_chance,
        crit_multiplier: p.crit_multiplier,
    }
}

/// How a weapon's shot manifests in the world.
#[derive(Debug, Clone, Copy, PartialEq, Eq, Structural)]
pub enum FireProfile {
    /// One projectile straight along the aim vector.
    Single,
    /// `pellets` projectiles fanned across ±`spread` radians, each carrying an equal
    /// split of the per-shot damage.
    Spread { pellets: u32, spread: Scalar },
    /// One projectile at `speed_factor` times the projectile speed that detonates on
    /// impact, dealing full damage to every enemy within `radius` tiles.
    Explosive { radius: Scalar, speed_factor: Scalar },
}

/// The fire pattern of a weapon base.
pub open spec fn profile_of(base_id: Seq<char>) -> FireProfile {
    if base_id == "shotgun"@ {
        FireProfile::Spread { pellets: SPREAD_PELLETS, spread: Scalar { bits: SPREAD_ANGLE } }
    } else if base_id == "rocket_launcher"@ {
        FireProfile::Explosive {
            radius: Scalar { bits: BLAST_RADIUS },
            speed_factor: Scalar { bits: BLAST_SPEED_FACTOR },
        }
    } else {
        FireProfile::Single
    }
}

/// The mechanical fire pattern for a weapon base, keyed by id. The two heavy weapons get
/// their signature behaviour; every rapid-fire or unknown base fires a single straight
/// shot.
pub fn fire_profile(base_id: &str) -> (p: FireProfile)
    ensures
        p == profile_of(base_id@),
{
    if same_text(base_id, "shotgun") {
        FireProfile::Spread { pellets: SPREAD_PELLETS, spread: Scalar { bits: SPREAD_ANGLE } }
    } else if same_text(base_id, "rocket_launcher") {
        FireProfile::Explosive {
            radius: Scalar { bits: BLAST_RADIUS },
            speed_factor: Scalar { bits: BLAST_SPEED_FACTOR },
        }
    } else {
        FireProfile::Single
    }
}

/// Movement speed of the archetypes: 4.5, 4, 3.2, 3, 2.2 and 1.8 tiles per second.
pub const SPEED_FAST: u32 = 0x4090_0000;

pub const SPEED_RUSHER: u32 = 0x4080_0000;

pub const SPEED_SPITTER: u32 = 0x404c_cccd;

pub const SPEED_BASIC: u32 = 0x4040_0000;

pub const SPEED_PATIENT_ZERO: u32 = 0x400c_cccd;

pub const SPEED_FAT: u32 = 0x3fe6_6666;

/// The movement speed of an enemy archetype.
pub open spec fn speed_of(id: Seq<char>) -> Scalar {
    if id == "fast_zombie"@ {
        Scalar { bits: SPEED_FAST }
    } else if id == "swarm_rusher"@ {
        Scalar { bits: SPEED_RUSHER }
    } else if id == "spitter"@ {
        Scalar { bits: SPEED_SPITTER }
    } else if id == "patient_zero"@ {
        Scalar { bits: SPEED_PATIENT_ZERO }
    } else if id == "fat_zombie"@ {
        Scalar { bits: SPEED_FAT }
    } else {
        Scalar { bits: SPEED_BASIC }
    }
}

/// Per-archetype movement speed (tiles/sec), keyed by enemy `id`. Unknown ids fall back
/// to the baseline zombie pace.
pub fn archetype_speed(id: &str) -> (s: Scalar)
    ensures
        s == speed_of(id@),
{
    if same_text(id, "fast_zombie") {
        Scalar { bits: SPEED_FAST }
    } else if same_text(id, "swarm_rusher") {
        Scalar { bits: SPEED_RUSHER }
    } else if same_text(id, "spitter") {
        Scalar { bits: SPEED_SPITTER }
    } else if same_text(id, "patient_zero") {
        Scalar { bits: SPEED_PATIENT_ZERO }
    } else if same_text(id, "fat_zombie") {
        Scalar { bits: SPEED_FAT }
    } else {
        Scalar { bits: SPEED_BASIC }
    }
}

/// A transient blast marker for rendering a rocket detonation.
#[derive(Debug, Clone, Copy, PartialEq, Eq, Structural)]
pub struct Explosion {
    pub x: Scalar,
    pub y: Scalar,
    pub radius: Scalar,
    /// Seconds left before the effect is culled.
    pub ttl: Scalar,
    /// Lifetime at the start, so that the renderer can compute a 0..1 fade.
    pub max_ttl: Scalar,
}

/// What an item amounts to as a weapon: its combat numbers, and the rank by which
/// weapons are compared, its expected damage per second against a defenseless target.
#[derive(Debug, Clone, Copy, PartialEq, Eq, Structural)]
pub struct Appraisal {
    pub weapon: Weapon,
    pub rank: Scalar,
}

/// A weapon on the rack: the owned item plus what it was appraised at when it was
/// acquired, the base's display name, and its fire pattern.
#[derive(Debug)]
pub struct EquippedWeapon {
    pub item: ItemInstance,
    pub weapon: Weapon,
    pub rank: Scalar,
    pub name: String,
    pub profile: FireProfile,
}

/// A live enemy in the world. `archetype` indexes into [`Content::enemies`]; `id` is
/// stable for the entity's lifetime.
#[derive(Debug, Clone, Copy, PartialEq, Eq, Structural)]
pub struct EnemyInstance {
    pub id: u64,
    pub x: Scalar,
    pub y: Scalar,
    pub archetype: usize,
    pub combatant: Combatant,
    /// Movement speed in tiles per second.
    pub speed: Scalar,
    /// Aggro latch: an enemy that spotted the player or took a hit gives chase for good.
    pub awake: bool,
    /// Yaw (radians) the enemy is visually facing.
    pub facing: Scalar,
}

/// An item lying on the ground waiting to be walked over.
#[derive(Debug)]
pub struct LootDrop {
    pub id: u64,
    pub x: Scalar,
    pub y: Scalar,
    pub item: ItemInstance,
}

/// Static, loaded-once content the runtime reads but never mutates.
#[derive(Debug)]
pub struct Content {
    pub enemies: Vec<Enemy>,
    pub bases: Vec<BaseItem>,
    pub affixes: Vec<Affix>,
}

impl Content {
    /// Empty content — no enemies spawn, no loot rolls.
    pub fn empty() -> (c: Content)
        ensures
            c.enemies@.len() == 0,
            c.bases@.len() == 0,
            c.affixes@.len() == 0,
    {
        Content { enemies: Vec::new(), bases: Vec::new(), affixes: Vec::new() }
    }
}

/// What the player asks of the world. Input collectors emit these; the world applies
/// them.
#[derive(Debug, Clone, Copy, PartialEq, Eq, Structural)]
pub enum Command {
    /// Move in the normalized direction `(dx, dy)`.
    Move { dx: Scalar, dy: Scalar },
    /// Fire in the direction `(dx, dy)`. No-op if the cooldown isn't up.
    Fire { dx: Scalar, dy: Scalar },
    /// Switch to the weapon at rack `slot`. No-op if out of range.
    SwitchWeapon { slot: usize },
    /// Cycle the active weapon by `dir` (+1 next / −1 prev), wrapping. No-op with fewer
    /// than two weapons held.
    CycleWeapon { dir: i32 },
}

/// How weapons fire: a shotgun fans out six pellets across 0.28 radians to either side, a
/// rocket launcher fires a rocket at 0.55 of the usual speed that bursts within 1.6 tiles,
/// and everything else fires one shot.
pub proof fn law_fire_patterns(id: Seq<char>)
    ensures
        id == "shotgun"@ ==> profile_of(id) == (FireProfile::Spread {
            pellets: 6,
            spread: Scalar { bits: 0x3e8f_5c29 },
        }),
        id != "shotgun"@ && id == "rocket_launcher"@ ==> profile_of(id) == (
        FireProfile::Explosive {
            radius: Scalar { bits: 0x3fcc_cccd },
            speed_factor: Scalar { bits: 0x3f0c_cccd },
        }),
        id != "shotgun"@ && id != "rocket_launcher"@ ==> profile_of(id) == FireProfile::Single,
{
}

/// How fast enemies are, in tiles per second: fast zombies 4.5, rushers 4, spitters 3.2, the
/// first patient 2.2 and fat zombies 1.8. Everyone else goes at the pace of a plain zombie,
/// which is 3.
pub proof fn law_paces(id: Seq<char>)
    ensures
        ({
            let names = seq![
                "fast_zombie"@,
                "swarm_rusher"@,
                "spitter"@,
                "patient_zero"@,
                "fat_zombie"@,
            ];
            let paces = seq![
                0x4090_0000u32,
                0x4080_0000,
                0x404c_cccd,
                0x400c_cccd,
                0x3fe6_6666,
            ];
            &&& forall|i: int|
                #![trigger names[i]]
                0 <= i < 5 && names[i] == id && (forall|j: int|
                    #![trigger names[j]]
                    0 <= j < i ==> names[j] != id) ==> speed_of(id).bits == paces[i]
            &&& !names.contains(id) ==> speed_of(id).bits == 0x4040_0000
        }),
{
    let names = seq![
        "fast_zombie"@,
        "swarm_rusher"@,
        "spitter"@,
        "patient_zero"@,
        "fat_zombie"@,
    ];
    assert(names[0] == "fast_zombie"@);
    assert(names[1] == "swarm_rusher"@);
    assert(names[2] == "spitter"@);
    assert(names[3] == "patient_zero"@);
    assert(names[4] == "fat_zombie"@);
}

/// A player starts at a full life of 100, standing still where they are put.
pub proof fn law_players_start_unhurt(x: Scalar, y: Scalar)
    ensures
        ({
            let p = Player::fresh(x, y);
            &&& p.x == x && p.y == y
            &&& p.vx.bits == 0 && p.vy.bits == 0
            &&& p.max_life.bits == 0x42c8_0000
            &&& p.current_life == p.max_life
        }),
{
}

/// A projectile hits with its own damage and crit numbers, and bursts if it has a radius.
pub proof fn law_projectiles_are_weapons(p: Projectile)
    ensures
        p.as_weapon().damage_per_shot == p.damage,
        p.as_weapon().crit_chance == p.crit_chance,
        p.as_weapon().crit_multiplier == p.crit_multiplier,
        p.is_explosive() <==> !p.aoe_radius.is_nan() && p.aoe_radius.value() > 0,
{
}

} // verus!
