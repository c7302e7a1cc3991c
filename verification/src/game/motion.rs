//! Movement: who may go where, who wakes and how an enemy approaches.

use vstd::prelude::*;

use crate::game::entity::{EnemyInstance, Player};
use crate::game::nearby::within;
use crate::game::world::{floor_at, on_floor, slid, slide, World};
use crate::rules::combat::is_spent;
use crate::scalar::Scalar;

verus! {

/// How an enemy that gives chase approaches the player.
#[derive(Debug, Clone, Copy, PartialEq, Eq, Structural)]
pub enum Approach {
    /// Straight at the player.
    Beeline,
    /// Along the flow field.
    Flow,
}

/// The squared distance below which an enemy stands on the player: 1e-8.
pub const ON_TOP: u32 = 0x322b_cc77;

/// How an enemy at the given distance (squared) approaches: straight at the player where
/// they are in range, in sight and not on the same spot; along the flow field otherwise.
pub fn approach(d2: &Scalar, los2: &Scalar, clear: bool) -> (a: Approach)
    ensures
        a == Approach::Beeline <==> within(*d2, *los2) && (Scalar { bits: ON_TOP }).less_than(*d2)
            && clear,
{
    if d2.le(los2) && (Scalar { bits: ON_TOP }).lt(d2) && clear {
        Approach::Beeline
    } else {
        Approach::Flow
    }
}

/// The least length that counts: 1e-6.
pub const NEGLIGIBLE: u32 = 0x3586_37bd;

/// The least blended push that moves an enemy: 1e-4.
pub const STEADY: u32 = 0x38d1_b717;

/// Whether the player's velocity reaches its target in this frame: where what is missing is
/// within what the acceleration allows, or is nothing.
pub fn reaches_target(missing: &Scalar, max_delta: &Scalar) -> (r: bool)
    ensures
        r == (within(*missing, *max_delta) || missing.less_than(Scalar { bits: NEGLIGIBLE })),
{
    missing.le(max_delta) || missing.lt(&Scalar { bits: NEGLIGIBLE })
}

/// Whether an enemy moves: where its urge to seek and the push of the others do not cancel
/// out. Otherwise it holds its position in the ring.
pub fn is_pushed(length: &Scalar) -> (r: bool)
    ensures
        r == (Scalar { bits: STEADY }).less_than(*length),
{
    (Scalar { bits: STEADY }).lt(length)
}

/// Whether an enemy turns to a heading of the given length (squared).
pub fn turns(d2: &Scalar) -> (r: bool)
    ensures
        r == (Scalar { bits: NEGLIGIBLE }).less_than(*d2),
{
    (Scalar { bits: NEGLIGIBLE }).lt(d2)
}

/// Whether one enemy pushes another away: within the radius, given along with its square,
/// but not from the same spot. Without a radius nobody pushes.
pub fn repels(d2: &Scalar, radius: &Scalar, r2: &Scalar) -> (r: bool)
    ensures
        r == (!is_spent(*radius) && (Scalar { bits: NEGLIGIBLE }).less_than(*d2)
            && d2.less_than(*r2)),
{
    !radius.le(&Scalar::zero()) && (Scalar { bits: NEGLIGIBLE }).lt(d2) && d2.lt(r2)
}

/// The player after moving towards `(nx, ny)` at the given velocity: along each axis they
/// move if that leads to floor, and lose their speed along it if it does not.
pub open spec fn moved(
    map: crate::procgen::tilemap::TileMap,
    p: Player,
    vx: Scalar,
    vy: Scalar,
    nx: Scalar,
    ny: Scalar,
) -> Player {
    let (x, y) = slid(map, p.x, p.y, nx, ny);
    Player {
        x,
        y,
        vx: if on_floor(map, nx, p.y) {
            vx
        } else {
            Scalar { bits: 0 }
        },
        vy: if on_floor(map, x, ny) {
            vy
        } else {
            Scalar { bits: 0 }
        },
        ..p
    }
}

/// What an enemy sees of the player: how far away they are (squared), and whether the line
/// between them is clear.
#[derive(Debug, Clone, Copy, PartialEq, Eq, Structural)]
pub struct Sighting {
    pub d2: Scalar,
    pub clear: bool,
}

/// Where an enemy is heading in a tick, and the heading that it turns to, if it moves at
/// all.
#[derive(Debug, Clone, Copy, PartialEq, Eq, Structural)]
pub struct Step {
    pub x: Scalar,
    pub y: Scalar,
    pub facing: Option<Scalar>,
}

/// An enemy after it has looked for the player.
pub open spec fn noticed(e: EnemyInstance, seen: Sighting, sight2: Scalar) -> EnemyInstance {
    EnemyInstance { awake: e.awake || (within(seen.d2, sight2) && seen.clear), ..e }
}

/// An enemy after a step: one that is not awake holds its position and its heading.
pub open spec fn stepped(
    map: crate::procgen::tilemap::TileMap,
    e: EnemyInstance,
    step: Step,
) -> EnemyInstance {
    if !e.awake {
        e
    } else {
        let (x, y) = slid(map, e.x, e.y, step.x, step.y);
        EnemyInstance {
            x,
            y,
            facing: match step.facing {
                Some(f) => f,
                None => e.facing,
            },
            ..e
        }
    }
}

impl World {
    /// This frame's requested move direction, which is used up: a frame without a move
    /// command reads as "stop".
    pub fn take_intent(&mut self) -> (intent: (Scalar, Scalar))
        ensures
            intent == old(self).move_intent,
            *final(self) == (World {
                move_intent: (Scalar { bits: 0 }, Scalar { bits: 0 }),
                ..*old(self)
            }),
    {
        let intent = self.move_intent;
        self.move_intent = (Scalar { bits: 0 }, Scalar { bits: 0 });
        intent
    }

    /// Moves the player towards `(nx, ny)` at the given velocity, with per-axis wall
    /// sliding; the blocked axis loses its speed, so that it doesn't accumulate into a wall.
    pub fn integrate_movement(&mut self, vx: Scalar, vy: Scalar, nx: Scalar, ny: Scalar)
        requires
            old(self).map.wf(),
        ensures
            *final(self) == (World {
                player: moved(old(self).map, old(self).player, vx, vy, nx, ny),
                ..*old(self)
            }),
    {
        let p = self.player;
        let free_x = floor_at(&self.map, &nx, &p.y);
        let x = if free_x { nx } else { p.x };
        let free_y = floor_at(&self.map, &x, &ny);
        self.player = Player {
            x,
            y: if free_y { ny } else { p.y },
            vx: if free_x { vx } else { Scalar { bits: 0 } },
            vy: if free_y { vy } else { Scalar { bits: 0 } },
            ..p
        };
    }

    /// Whether a line is free of walls, given the points at which it is looked at.
    pub fn line_clear(&self, samples: &Vec<(Scalar, Scalar)>) -> (clear: bool)
        requires
            self.map.wf(),
        ensures
            clear == forall|k: int|
                0 <= k < samples@.len() ==> on_floor(
                    self.map,
                    (#[trigger] samples@[k]).0,
                    samples@[k].1,
                ),
    {
        for i in 0..samples.len()
            invariant
                self.map.wf(),
                forall|k: int|
                    0 <= k < i ==> on_floor(
                        self.map,
                        (#[trigger] samples@[k]).0,
                        samples@[k].1,
                    ),
        {
            let (x, y) = samples[i];
            if !floor_at(&self.map, &x, &y) {
                assert(!on_floor(self.map, samples@[i as int].0, samples@[i as int].1));
                return false;
            }
        }
        true
    }

    /// The player's life after touching enemies took their toll: what is left, but never
    /// less than nothing.
    pub fn drain_player(&mut self, left: Scalar)
        ensures
            *final(self) == (World {
                player: Player { current_life: left.or_zero(), ..old(self).player },
                ..*old(self)
            }),
    {
        self.player.current_life = left.floored();
    }

    /// Dormant enemies that have the player within sight on a clear line wake, for good.
    /// Given is what each enemy sees, and the range of sight squared.
    pub fn notice(&mut self, seen: &Vec<Sighting>, sight2: &Scalar)
        requires
            old(self).wf(),
            seen@.len() == old(self).enemies@.len(),
        ensures
            final(self).wf(),
            final(self).enemies@ == Seq::new(
                old(self).enemies@.len(),
                |i: int| noticed(old(self).enemies@[i], seen@[i], *sight2),
            ),
            *final(self) == (World { enemies: final(self).enemies, ..*old(self) }),
    {
        let ghost all = Seq::new(
            self.enemies@.len(),
            |i: int| noticed(old(self).enemies@[i], seen@[i], *sight2),
        );
        for k in 0..seen.len()
            invariant
                self.wf(),
                seen@.len() == old(self).enemies@.len(),
                all == Seq::new(
                    old(self).enemies@.len(),
                    |i: int| noticed(old(self).enemies@[i], seen@[i], *sight2),
                ),
                self.enemies@ =~= all.take(k as int) + old(self).enemies@.skip(k as int),
                *self == (World { enemies: self.enemies, ..*old(self) }),
        {
            let mut e = self.enemies[k];
            if seen[k].d2.le(sight2) && seen[k].clear {
                e.awake = true;
            }
            self.enemies.set(k, e);
        }
    }

    /// Moves the swarm. Whoever sees the player wakes; then every enemy that is awake steps
    /// towards where it is heading, sliding along walls, and turns to its heading, or keeps
    /// facing where it did while it stands. A dormant one holds its position. Given is what
    /// each enemy sees, the range of sight squared, and where each would go.
    pub fn move_enemies(&mut self, seen: &Vec<Sighting>, sight2: &Scalar, steps: &Vec<Step>)
        requires
            old(self).wf(),
            seen@.len() == old(self).enemies@.len(),
            steps@.len() == old(self).enemies@.len(),
        ensures
            final(self).wf(),
            final(self).enemies@ == Seq::new(
                old(self).enemies@.len(),
                |i: int|
                    stepped(
                        old(self).map,
                        noticed(old(self).enemies@[i], seen@[i], *sight2),
                        steps@[i],
                    ),
            ),
            *final(self) == (World { enemies: final(self).enemies, ..*old(self) }),
    {
        self.notice(seen, sight2);
        let ghost awake = *self;
        let ghost all = Seq::new(
            self.enemies@.len(),
            |i: int| stepped(awake.map, awake.enemies@[i], steps@[i]),
        );
        for k in 0..steps.len()
            invariant
                self.wf(),
                steps@.len() == awake.enemies@.len(),
                all == Seq::new(
                    awake.enemies@.len(),
                    |i: int| stepped(awake.map, awake.enemies@[i], steps@[i]),
                ),
                self.enemies@ =~= all.take(k as int) + awake.enemies@.skip(k as int),
                *self == (World { enemies: self.enemies, ..awake }),
        {
            let mut e = self.enemies[k];
            if e.awake {
                let (x, y) = slide(&self.map, e.x, e.y, steps[k].x, steps[k].y);
                e.x = x;
                e.y = y;
                if let Some(f) = steps[k].facing {
                    e.facing = f;
                }
            }
            self.enemies.set(k, e);
        }
        assert(self.enemies@ =~= Seq::new(
            old(self).enemies@.len(),
            |i: int|
                stepped(
                    old(self).map,
                    noticed(old(self).enemies@[i], seen@[i], *sight2),
                    steps@[i],
                ),
        ));
    }
}

/// Enemies on floor stay on floor wherever they are heading.
pub proof fn law_enemies_stay_on_floor(
    map: crate::procgen::tilemap::TileMap,
    e: EnemyInstance,
    step: Step,
)
    requires
        on_floor(map, e.x, e.y),
    ensures
        on_floor(map, stepped(map, e, step).x, stepped(map, e, step).y),
{
}

/// An enemy that is awake stays awake, and one that sleeps wakes only if it sees the player.
pub proof fn law_enemies_wake_for_good(e: EnemyInstance, seen: Sighting, sight2: Scalar)
    ensures
        e.awake ==> noticed(e, seen, sight2).awake,
        !e.awake && noticed(e, seen, sight2).awake ==> seen.clear && within(seen.d2, sight2),
{
}

/// When the swarm has moved, an enemy is awake if and only if it was, or the player was in
/// its range of sight on a clear line. One that is not awake has neither moved nor turned,
/// wherever its step would have led. Moving changes no id and hurts nobody.
pub proof fn law_dormant_enemies_hold_position(
    map: crate::procgen::tilemap::TileMap,
    e: EnemyInstance,
    seen: Sighting,
    sight2: Scalar,
    step: Step,
)
    ensures
        ({
            let after = stepped(map, noticed(e, seen, sight2), step);
            &&& after.awake <==> e.awake || (within(seen.d2, sight2) && seen.clear)
            &&& !after.awake ==> after == e
            &&& after.id == e.id
            &&& after.combatant == e.combatant
        }),
{
}

/// A player on floor stays on floor wherever they are heading.
pub proof fn law_player_stays_on_floor(
    map: crate::procgen::tilemap::TileMap,
    p: Player,
    vx: Scalar,
    vy: Scalar,
    nx: Scalar,
    ny: Scalar,
)
    requires
        on_floor(map, p.x, p.y),
    ensures
        on_floor(map, moved(map, p, vx, vy, nx, ny).x, moved(map, p, vx, vy, nx, ny).y),
{
}

/// How the player and the enemies move. Both slide along walls. A player who is stopped
/// along an axis has no speed along it any more, and keeps the given one otherwise; nothing
/// else about them changes. An enemy that is awake turns to its heading if it has one.
pub proof fn law_walls_stop_one_axis(
    map: crate::procgen::tilemap::TileMap,
    p: Player,
    vx: Scalar,
    vy: Scalar,
    e: EnemyInstance,
    step: Step,
)
    ensures
        ({
            let after = moved(map, p, vx, vy, step.x, step.y);
            let side = on_floor(map, step.x, p.y);
            let along = on_floor(
                map,
                if side {
                    step.x
                } else {
                    p.x
                },
                step.y,
            );
            &&& after.x == if side {
                step.x
            } else {
                p.x
            }
            &&& after.y == if along {
                step.y
            } else {
                p.y
            }
            &&& after.vx.bits == if side {
                vx.bits
            } else {
                0
            }
            &&& after.vy.bits == if along {
                vy.bits
            } else {
                0
            }
            &&& after == (Player { x: after.x, y: after.y, vx: after.vx, vy: after.vy, ..p })
        }),
        e.awake ==> ({
            let after = stepped(map, e, step);
            let side = on_floor(map, step.x, e.y);
            let along = on_floor(
                map,
                if side {
                    step.x
                } else {
                    e.x
                },
                step.y,
            );
            &&& after.x == if side {
                step.x
            } else {
                e.x
            }
            &&& after.y == if along {
                step.y
            } else {
                e.y
            }
            &&& step.facing matches Some(f) ==> after.facing == f
            &&& step.facing is None ==> after.facing == e.facing
            &&& after == (EnemyInstance { x: after.x, y: after.y, facing: after.facing, ..e })
        }),
        !e.awake ==> stepped(map, e, step) == e,
{
}

} // verus!
