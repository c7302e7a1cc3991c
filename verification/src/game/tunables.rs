//! The gameplay knobs and their default values.
//!
//! Numbers are given by their single-precision bit patterns; each constant says what it
//! stands for.

use vstd::prelude::*;

use crate::rules::combat::ONE_BITS;
use crate::scalar::Scalar;

verus! {

/// Player movement speed: 6 tiles per second.
pub const PLAYER_SPEED: u32 = 0x40c0_0000;

/// Player acceleration: 40 tiles/sec² — full speed is reached in ~0.15s.
pub const PLAYER_ACCEL: u32 = 0x4220_0000;

/// Projectile speed: 24 tiles per second, ~4× player speed so shots feel snappy.
pub const PROJECTILE_SPEED: u32 = 0x41c0_0000;

/// Shots per second: 4; the reciprocal is the per-shot cooldown.
pub const FIRE_RATE: u32 = 0x4080_0000;

/// Damage of a projectile hit: 12.
pub const BULLET_DAMAGE: u32 = 0x4140_0000;

/// How long a projectile lives before it despawns: 1.5 seconds.
pub const BULLET_LIFETIME: u32 = 0x3fc0_0000;

/// Player starting / max life: 100.
pub const PLAYER_MAX_LIFE: u32 = 0x42c8_0000;

/// An enemy within this distance of the player deals contact damage: 0.6 tiles.
pub const CONTACT_RANGE: u32 = 0x3f19_999a;

/// Damage per second of a touching enemy: 8.
pub const CONTACT_DPS: u32 = 0x4100_0000;

/// How close a projectile must pass to an enemy to count as a hit: 0.45 tiles.
pub const PROJECTILE_HIT_RADIUS: u32 = 0x3ee6_6666;

/// How close the player must be to a ground drop to pick it up: 0.7 tiles.
pub const PICKUP_RADIUS: u32 = 0x3f33_3333;

/// Time between spawn waves: 3 seconds.
pub const SPAWN_INTERVAL: u32 = 0x4040_0000;

/// Probability that a kill drops an item at all: 0.35.
pub const DROP_CHANCE: u32 = 0x3eb3_3333;

/// How long a rocket's blast ring stays on screen: 0.35 seconds.
pub const EXPLOSION_TTL: u32 = 0x3eb3_3333;

/// Enemies attempted per wave (capped by `MAX_ENEMIES`).
pub const SPAWN_BATCH: usize = 4;

/// Hard cap on concurrent live enemies.
pub const MAX_ENEMIES: usize = 40;

/// Minimum spawn distance from the player, in steps along the flow field, so that a wave
/// never materializes on top of them.
pub const SPAWN_MIN_DISTANCE: u32 = 12;

/// How many enemy archetypes the wave-composition weights address. Archetypes past this
/// index aren't weight-addressable.
pub const MAX_SPAWN_ARCHETYPES: usize = 12;

/// How many pellets a shotgun fires.
pub const SPREAD_PELLETS: u32 = 6;

/// Half-angle of a shotgun's fan: 0.28 radians.
pub const SPREAD_ANGLE: u32 = 0x3e8f_5c29;

/// Blast radius of a rocket: 1.6 tiles.
pub const BLAST_RADIUS: u32 = 0x3fcc_cccd;

/// Speed of a rocket, relative to that of other projectiles: 0.55.
pub const BLAST_SPEED_FACTOR: u32 = 0x3f0c_cccd;

/// Distance at which a dormant enemy spots the player: 12 tiles.
pub const SIGHT_RANGE: u32 = 0x4140_0000;

/// Distance up to which an enemy beelines at the player: 20 tiles.
pub const LOS_RANGE: u32 = 0x41a0_0000;

/// How hard enemies push apart: 1.5.
pub const SEPARATION_WEIGHT: u32 = 0x3fc0_0000;

/// Stick magnitude that reads as neutral: 0.2.
pub const STICK_DEADZONE: u32 = 0x3e4c_cccd;

/// Live, runtime-mutable copy of the gameplay knobs. The simulation reads every knob from
/// here, so that a debug overlay can retune the feel.
#[derive(Debug, Clone, Copy)]
pub struct Tunables {
    pub player_speed: Scalar,
    /// Acceleration the player velocity eases toward the input target at.
    pub player_accel: Scalar,
    pub projectile_speed: Scalar,
    pub fire_rate: Scalar,
    pub bullet_damage: Scalar,
    pub bullet_lifetime: Scalar,
    /// Per-shot crit chance (0..=1).
    pub crit_chance: Scalar,
    /// Crit damage multiplier (1.5 = 150% on a crit).
    pub crit_multiplier: Scalar,
    /// How many projectiles a spread shot fans out.
    pub spread_pellets: u32,
    /// Half-angle of the fan, in radians.
    pub spread_angle: Scalar,
    /// Blast radius of an explosive shot, in tiles.
    pub blast_radius: Scalar,
    /// Speed multiplier of an explosive shot.
    pub blast_speed_factor: Scalar,
    pub contact_dps: Scalar,
    pub spawn_interval: Scalar,
    pub spawn_batch: usize,
    pub max_enemies: usize,
    pub spawn_min_distance: u32,
    /// Relative spawn weight per archetype; a zero weight means "never spawn this type".
    /// All zero means uniform — every archetype equally likely.
    pub spawn_weights: [u32; 12],
    pub drop_chance: Scalar,
    /// Multiplier on every enemy's move speed.
    pub enemy_speed_mult: Scalar,
    /// Distance at which a dormant enemy with clear line of sight spots the player.
    pub sight_range: Scalar,
    /// Distance up to which an enemy with clear line of sight beelines at the player.
    pub los_range: Scalar,
    /// How hard enemies push apart.
    pub separation_weight: Scalar,
    /// Radius within which enemies repel one another.
    pub separation_radius: Scalar,
    /// Gamepad stick magnitude below which a stick reads as neutral.
    pub stick_deadzone: Scalar,
    /// When false, the wave timer is suspended.
    pub auto_spawn: bool,
    /// When true, the player takes no contact damage.
    pub god_mode: bool,
}

impl Tunables {
    /// Whether every knob has its default value.
    pub open spec fn is_standard(self) -> bool {
        &&& self.player_speed == (Scalar { bits: PLAYER_SPEED })
        &&& self.player_accel == (Scalar { bits: PLAYER_ACCEL })
        &&& self.projectile_speed == (Scalar { bits: PROJECTILE_SPEED })
        &&& self.fire_rate == (Scalar { bits: FIRE_RATE })
        &&& self.bullet_damage == (Scalar { bits: BULLET_DAMAGE })
        &&& self.bullet_lifetime == (Scalar { bits: BULLET_LIFETIME })
        &&& self.crit_chance == (Scalar { bits: 0 })
        &&& self.crit_multiplier == (Scalar { bits: ONE_BITS })
        &&& self.spread_pellets == SPREAD_PELLETS
        &&& self.spread_angle == (Scalar { bits: SPREAD_ANGLE })
        &&& self.blast_radius == (Scalar { bits: BLAST_RADIUS })
        &&& self.blast_speed_factor == (Scalar { bits: BLAST_SPEED_FACTOR })
        &&& self.contact_dps == (Scalar { bits: CONTACT_DPS })
        &&& self.spawn_interval == (Scalar { bits: SPAWN_INTERVAL })
        &&& self.spawn_batch == SPAWN_BATCH
        &&& self.max_enemies == MAX_ENEMIES
        &&& self.spawn_min_distance == SPAWN_MIN_DISTANCE
        &&& forall|i: int| 0 <= i < 12 ==> self.spawn_weights@[i] == 0
        &&& self.drop_chance == (Scalar { bits: DROP_CHANCE })
        &&& self.enemy_speed_mult == (Scalar { bits: ONE_BITS })
        &&& self.sight_range == (Scalar { bits: SIGHT_RANGE })
        &&& self.los_range == (Scalar { bits: LOS_RANGE })
        &&& self.separation_weight == (Scalar { bits: SEPARATION_WEIGHT })
        &&& self.separation_radius == (Scalar { bits: ONE_BITS })
        &&& self.stick_deadzone == (Scalar { bits: STICK_DEADZONE })
        &&& self.auto_spawn
        &&& !self.god_mode
    }
}

impl Default for Tunables {
    fn default() -> (t: Tunables)
        ensures
            t.is_standard(),
    {
        Tunables {
            player_speed: Scalar { bits: PLAYER_SPEED },
            player_accel: Scalar { bits: PLAYER_ACCEL },
            projectile_speed: Scalar { bits: PROJECTILE_SPEED },
            fire_rate: Scalar { bits: FIRE_RATE },
            bullet_damage: Scalar { bits: BULLET_DAMAGE },
            bullet_lifetime: Scalar { bits: BULLET_LIFETIME },
            crit_chance: Scalar { bits: 0 },
            crit_multiplier: Scalar { bits: ONE_BITS },
            spread_pellets: SPREAD_PELLETS,
            spread_angle: Scalar { bits: SPREAD_ANGLE },
            blast_radius: Scalar { bits: BLAST_RADIUS },
            blast_speed_factor: Scalar { bits: BLAST_SPEED_FACTOR },
            contact_dps: Scalar { bits: CONTACT_DPS },
            spawn_interval: Scalar { bits: SPAWN_INTERVAL },
            spawn_batch: SPAWN_BATCH,
            max_enemies: MAX_ENEMIES,
            spawn_min_distance: SPAWN_MIN_DISTANCE,
            spawn_weights: [0; 12],
            drop_chance: Scalar { bits: DROP_CHANCE },
            enemy_speed_mult: Scalar { bits: ONE_BITS },
            sight_range: Scalar { bits: SIGHT_RANGE },
            los_range: Scalar { bits: LOS_RANGE },
            separation_weight: Scalar { bits: SEPARATION_WEIGHT },
            separation_radius: Scalar { bits: ONE_BITS },
            stick_deadzone: Scalar { bits: STICK_DEADZONE },
            auto_spawn: true,
            god_mode: false,
        }
    }
}

/// The default knobs: the player goes 6 tiles per second, reaching that at 40 per second
/// squared; shots fly 24 tiles per second for 1.5 seconds, four a second, for 12 damage and
/// without crits; six pellets across 0.28 radians, rockets at 0.55 of the speed with a blast
/// of 1.6 tiles; contact costs 8 a second; every 3 seconds up to 4 enemies come, at most 40
/// at a time and not within 12 steps, any archetype as likely as another; 0.35 of the kills
/// drop something; enemies see 12 tiles far and beeline within 20.
pub proof fn law_default_knobs(t: Tunables, i: int)
    requires
        t.is_standard(),
        0 <= i < 12,
    ensures
        t.player_speed.bits == 0x40c0_0000,
        t.player_accel.bits == 0x4220_0000,
        t.projectile_speed.bits == 0x41c0_0000,
        t.fire_rate.bits == 0x4080_0000,
        t.bullet_damage.bits == 0x4140_0000,
        t.bullet_lifetime.bits == 0x3fc0_0000,
        t.crit_chance.bits == 0,
        t.crit_multiplier.bits == 0x3f80_0000,
        t.spread_pellets == 6,
        t.spread_angle.bits == 0x3e8f_5c29,
        t.blast_radius.bits == 0x3fcc_cccd,
        t.blast_speed_factor.bits == 0x3f0c_cccd,
        t.contact_dps.bits == 0x4100_0000,
        t.spawn_interval.bits == 0x4040_0000,
        t.spawn_batch == 4,
        t.max_enemies == 40,
        t.spawn_min_distance == 12,
        t.spawn_weights@[i] == 0,
        t.drop_chance.bits == 0x3eb3_3333,
        t.enemy_speed_mult.bits == 0x3f80_0000,
        t.sight_range.bits == 0x4140_0000,
        t.los_range.bits == 0x41a0_0000,
        t.separation_weight.bits == 0x3fc0_0000,
        t.separation_radius.bits == 0x3f80_0000,
        t.stick_deadzone.bits == 0x3e4c_cccd,
        t.auto_spawn,
        !t.god_mode,
{
}

} // verus!
