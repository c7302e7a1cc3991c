//! One tick of the world: what happens in it, and in which order.

use vstd::prelude::*;

use crate::game::world::World;

verus! {

/// The parts of a tick. Commands are applied before the tick, so that a shot that was just
/// fired gets one frame of motion.
#[derive(Debug, Clone, Copy, PartialEq, Eq, Structural)]
pub enum TickPhase {
    /// The fire cooldown runs down.
    Cooldown,
    /// The player moves.
    Movement,
    /// The flow field follows the player.
    Flow,
    /// Projectiles fly and hit.
    Projectiles,
    /// Blast markers age.
    Explosions,
    /// Enemies notice the player and move.
    Enemies,
    /// Touching enemies hurt.
    Contact,
    /// Drops in reach are collected.
    Pickups,
    /// Waves appear.
    Spawning,
    /// The game ends once no life is left.
    Outcome,
    /// The tick is over.
    Done,
}

impl TickPhase {
    /// How many parts of the tick are still to come, this one included.
    pub open spec fn remaining(self) -> int {
        match self {
            TickPhase::Cooldown => 10,
            TickPhase::Movement => 9,
            TickPhase::Flow => 8,
            TickPhase::Projectiles => 7,
            TickPhase::Explosions => 6,
            TickPhase::Enemies => 5,
            TickPhase::Contact => 4,
            TickPhase::Pickups => 3,
            TickPhase::Spawning => 2,
            TickPhase::Outcome => 1,
            TickPhase::Done => 0,
        }
    }

    /// The part that follows.
    pub fn next(self) -> (p: TickPhase)
        ensures
            p.remaining() == if self == TickPhase::Done {
                0
            } else {
                self.remaining() - 1
            },
    {
        match self {
            TickPhase::Cooldown => TickPhase::Movement,
            TickPhase::Movement => TickPhase::Flow,
            TickPhase::Flow => TickPhase::Projectiles,
            TickPhase::Projectiles => TickPhase::Explosions,
            TickPhase::Explosions => TickPhase::Enemies,
            TickPhase::Enemies => TickPhase::Contact,
            TickPhase::Contact => TickPhase::Pickups,
            TickPhase::Pickups => TickPhase::Spawning,
            TickPhase::Spawning => TickPhase::Outcome,
            TickPhase::Outcome | TickPhase::Done => TickPhase::Done,
        }
    }
}

/// The number of parts still to come tells the parts apart, so every tick goes through all
/// of them, each once.
pub proof fn law_each_phase_comes_once(a: TickPhase, b: TickPhase)
    requires
        a.remaining() == b.remaining(),
    ensures
        a == b,
{
}

impl World {
    /// Where a tick begins: nothing happens once the game is over.
    pub fn tick(&self) -> (p: TickPhase)
        ensures
            p == if self.game_over {
                TickPhase::Done
            } else {
                TickPhase::Cooldown
            },
    {
        if self.game_over {
            TickPhase::Done
        } else {
            TickPhase::Cooldown
        }
    }
}

/// The parts of a tick come in this order: the cooldown, the player's movement, the flow
/// field, projectiles, blast markers, enemies, contact, pickups, waves and the outcome.
pub proof fn law_parts_come_in_order()
    ensures
        TickPhase::Cooldown.remaining() == TickPhase::Movement.remaining() + 1,
        TickPhase::Movement.remaining() == TickPhase::Flow.remaining() + 1,
        TickPhase::Flow.remaining() == TickPhase::Projectiles.remaining() + 1,
        TickPhase::Projectiles.remaining() == TickPhase::Explosions.remaining() + 1,
        TickPhase::Explosions.remaining() == TickPhase::Enemies.remaining() + 1,
        TickPhase::Enemies.remaining() == TickPhase::Contact.remaining() + 1,
        TickPhase::Contact.remaining() == TickPhase::Pickups.remaining() + 1,
        TickPhase::Pickups.remaining() == TickPhase::Spawning.remaining() + 1,
        TickPhase::Spawning.remaining() == TickPhase::Outcome.remaining() + 1,
        TickPhase::Outcome.remaining() == TickPhase::Done.remaining() + 1,
{
}

} // verus!
