//! Shots: from the command to fire to what a projectile hits.

use vstd::prelude::*;

use crate::game::entity::{Command, Explosion, FireProfile, Projectile};
use crate::game::motion::NEGLIGIBLE;
use crate::game::tunables::EXPLOSION_TTL;
use crate::game::world::{on_floor, World};
use crate::procgen::spawn::swap_removed;
use crate::rules::combat::ONE_BITS;
use crate::scalar::Scalar;

verus! {

/// A shot that the player gets to fire: where to, and in which pattern.
#[derive(Debug, Clone, Copy, PartialEq, Eq, Structural)]
pub struct ShotRequest {
    pub dx: Scalar,
    pub dy: Scalar,
    pub profile: FireProfile,
}

/// How a shot is made up.
#[derive(Debug, Clone, Copy, PartialEq, Eq, Structural)]
pub struct ShotPlan {
    /// How many projectiles are fired; the damage is split evenly among them.
    pub pellets: u32,
    /// Half-angle of the fan that they are spread across.
    pub spread: Scalar,
    /// What their speed is multiplied with.
    pub speed_factor: Scalar,
    /// The radius in which they detonate; zero if they do not.
    pub aoe_radius: Scalar,
}

/// Whether a shot has a direction: one of no length is ignored, for it would hang in the
/// air.
pub fn has_direction(length: &Scalar) -> (r: bool)
    ensures
        r == !length.less_than(Scalar { bits: NEGLIGIBLE }),
{
    !length.lt(&Scalar { bits: NEGLIGIBLE })
}

/// Where a projectile gets to in a tick, how long it has left, and which enemy it meets.
#[derive(Debug, Clone, Copy, PartialEq, Eq, Structural)]
pub struct Flight {
    pub x: Scalar,
    pub y: Scalar,
    pub lifetime: Scalar,
    pub enemy: Option<usize>,
}

/// What becomes of a projectile in a tick.
#[derive(Debug, Clone, Copy, PartialEq, Eq, Structural)]
pub enum Impact {
    /// It flies on.
    Flies,
    /// Its time is up.
    Expired,
    /// It hit a wall and is gone.
    Wall,
    /// It hit an enemy.
    Enemy { index: usize, shot: Projectile },
    /// It detonated.
    Blast { shot: Projectile },
}

/// What becomes of a projectile in a tick: first its time may be up, then it may meet an
/// enemy, then a wall.
pub open spec fn impact_of(p: Projectile, f: Flight, passable: bool) -> Impact {
    if !f.lifetime.is_nan() && f.lifetime.value() <= 0 {
        Impact::Expired
    } else if f.enemy is Some {
        if p.is_explosive() {
            Impact::Blast { shot: p }
        } else {
            Impact::Enemy { index: f.enemy->0, shot: p }
        }
    } else if !passable {
        if p.is_explosive() {
            Impact::Blast { shot: p }
        } else {
            Impact::Wall
        }
    } else {
        Impact::Flies
    }
}

impl World {
    /// The fire pattern of the active weapon; single shots where nothing is armed.
    pub open spec fn active_profile(self) -> FireProfile {
        if self.active < self.loadout@.len() {
            self.loadout@[self.active as int].profile
        } else {
            FireProfile::Single
        }
    }

    /// Apply one command. Movement only records intent here — the tick eases velocity
    /// toward it. A command to fire is handed back as a request if the cooldown is up, and
    /// silently dropped otherwise. No-op once `game_over` is set.
    pub fn apply(&mut self, cmd: Command) -> (shot: Option<ShotRequest>)
        requires
            old(self).wf(),
        ensures
            final(self).wf(),
            old(self).game_over ==> *final(self) == *old(self) && shot is None,
            !old(self).game_over ==> match cmd {
                Command::Move { dx, dy } => shot is None && *final(self) == (World {
                    move_intent: (dx, dy),
                    ..*old(self)
                }),
                Command::Fire { dx, dy } => *final(self) == *old(self) && shot == (if !old(
                    self,
                ).player_fire_cooldown.is_nan() && old(self).player_fire_cooldown.value() > 0 {
                    None::<ShotRequest>
                } else {
                    Some(ShotRequest { dx, dy, profile: old(self).active_profile() })
                }),
                Command::SwitchWeapon { slot } => shot is None && final(self).same_but_rack(
                    *old(self),
                ) && final(self).rack() == old(self).rack().activated(slot as int),
                Command::CycleWeapon { dir } => shot is None && final(self).same_but_rack(
                    *old(self),
                ) && final(self).rack() == (if old(self).loadout@.len() >= 2 {
                    old(self).rack().activated(
                        (old(self).active + dir) % (old(self).loadout@.len() as int),
                    )
                } else {
                    old(self).rack()
                }),
            },
    {
        if self.game_over {
            return None;
        }
        match cmd {
            Command::Move { dx, dy } => {
                self.move_intent = (dx, dy);
                None
            },
            Command::Fire { dx, dy } => {
                if self.player_fire_cooldown.is_positive() {
                    return None;
                }
                let profile = match self.equipped() {
                    Some(e) => e.profile,
                    None => FireProfile::Single,
                };
                Some(ShotRequest { dx, dy, profile })
            },
            Command::SwitchWeapon { slot } => {
                self.switch_weapon(slot);
                None
            },
            Command::CycleWeapon { dir } => {
                self.cycle_weapon(dir);
                None
            },
        }
    }

    /// How a shot of the given pattern is made up. The profile gives the kind; the numbers
    /// come from the tunables.
    pub open spec fn plan_of(self, profile: FireProfile) -> ShotPlan {
        let one = Scalar { bits: ONE_BITS };
        let none = Scalar { bits: 0 };
        match profile {
            FireProfile::Single => ShotPlan {
                pellets: 1,
                spread: none,
                speed_factor: one,
                aoe_radius: none,
            },
            FireProfile::Spread { .. } => ShotPlan {
                pellets: if self.tunables.spread_pellets >= 1 {
                    self.tunables.spread_pellets
                } else {
                    1
                },
                spread: self.tunables.spread_angle,
                speed_factor: one,
                aoe_radius: none,
            },
            FireProfile::Explosive { .. } => ShotPlan {
                pellets: 1,
                spread: none,
                speed_factor: self.tunables.blast_speed_factor,
                aoe_radius: self.tunables.blast_radius,
            },
        }
    }

    /// How a shot of the given pattern is made up: a single bullet, a fanned pellet cone
    /// (damage split across pellets), or a slow explosive lob.
    pub fn spawn_shot(&self, profile: FireProfile) -> (plan: ShotPlan)
        ensures
            plan == self.plan_of(profile),
    {
        let one = Scalar { bits: ONE_BITS };
        let none = Scalar { bits: 0 };
        match profile {
            FireProfile::Single => ShotPlan {
                pellets: 1,
                spread: none,
                speed_factor: one,
                aoe_radius: none,
            },
            FireProfile::Spread { .. } => ShotPlan {
                pellets: if self.tunables.spread_pellets >= 1 {
                    self.tunables.spread_pellets
                } else {
                    1
                },
                spread: self.tunables.spread_angle,
                speed_factor: one,
                aoe_radius: none,
            },
            FireProfile::Explosive { .. } => ShotPlan {
                pellets: 1,
                spread: none,
                speed_factor: self.tunables.blast_speed_factor,
                aoe_radius: self.tunables.blast_radius,
            },
        }
    }

    /// A projectile as it leaves the player.
    pub open spec fn fired(
        self,
        vx: Scalar,
        vy: Scalar,
        damage: Scalar,
        aoe_radius: Scalar,
    ) -> Projectile {
        Projectile {
            x: self.player.x,
            y: self.player.y,
            vx,
            vy,
            damage,
            crit_chance: self.tunables.crit_chance,
            crit_multiplier: self.tunables.crit_multiplier,
            aoe_radius,
            lifetime: self.tunables.bullet_lifetime,
        }
    }

    /// Push one projectile from the player with the given velocity, per-hit damage and
    /// blast radius. Crit and lifetime are snapshotted from the current tunables.
    pub fn push_projectile(&mut self, vx: Scalar, vy: Scalar, damage: Scalar, aoe_radius: Scalar)
        ensures
            final(self).projectiles@ == old(self).projectiles@.push(
                old(self).fired(vx, vy, damage, aoe_radius),
            ),
            *final(self) == (World { projectiles: final(self).projectiles, ..*old(self) }),
    {
        let p = Projectile {
            x: self.player.x,
            y: self.player.y,
            vx,
            vy,
            damage,
            crit_chance: self.tunables.crit_chance,
            crit_multiplier: self.tunables.crit_multiplier,
            aoe_radius,
            lifetime: self.tunables.bullet_lifetime,
        };
        self.projectiles.push(p);
    }

    /// Fires a shot as planned, given the velocity of each of its projectiles and the damage
    /// of one; the next shot has to wait for `cooldown`.
    pub fn launch(
        &mut self,
        plan: &ShotPlan,
        velocities: &Vec<(Scalar, Scalar)>,
        damage: Scalar,
        cooldown: Scalar,
    )
        requires
            velocities@.len() == plan.pellets,
        ensures
            final(self).projectiles@ == old(self).projectiles@ + Seq::new(
                plan.pellets as nat,
                |k: int|
                    old(self).fired(velocities@[k].0, velocities@[k].1, damage, plan.aoe_radius),
            ),
            *final(self) == (World {
                projectiles: final(self).projectiles,
                player_fire_cooldown: cooldown,
                ..*old(self)
            }),
    {
        let ghost shots = Seq::new(
            plan.pellets as nat,
            |k: int| old(self).fired(velocities@[k].0, velocities@[k].1, damage, plan.aoe_radius),
        );
        for i in 0..velocities.len()
            invariant
                velocities@.len() == plan.pellets,
                shots == Seq::new(
                    plan.pellets as nat,
                    |k: int|
                        old(self).fired(
                            velocities@[k].0,
                            velocities@[k].1,
                            damage,
                            plan.aoe_radius,
                        ),
                ),
                self.projectiles@ =~= old(self).projectiles@ + shots.take(i as int),
                *self == (World { projectiles: self.projectiles, ..*old(self) }),
        {
            let (vx, vy) = velocities[i];
            self.push_projectile(vx, vy, damage, plan.aoe_radius);
        }
        assert(shots.take(shots.len() as int) =~= shots);
        self.player_fire_cooldown = cooldown;
    }

    /// The wait for the next shot runs down to what is left of it, but never below nothing.
    pub fn cool_down(&mut self, left: Scalar)
        ensures
            *final(self) == (World { player_fire_cooldown: left.or_zero(), ..*old(self) }),
    {
        self.player_fire_cooldown = left.floored();
    }

    /// Advance the `i`-th projectile by one tick: it despawns on lifetime expiry, enemy hit
    /// or wall hit, in this order, and moves on otherwise. An explosive shot detonates
    /// against the enemy or the wall it hits.
    pub fn advance_projectile(&mut self, i: usize, f: &Flight) -> (impact: Impact)
        requires
            old(self).map.wf(),
            i < old(self).projectiles@.len(),
        ensures
            impact == impact_of(
                old(self).projectiles@[i as int],
                *f,
                on_floor(old(self).map, f.x, f.y),
            ),
            final(self).projectiles@ == (if impact == Impact::Flies {
                old(self).projectiles@.update(
                    i as int,
                    Projectile {
                        x: f.x,
                        y: f.y,
                        lifetime: f.lifetime,
                        ..old(self).projectiles@[i as int]
                    },
                )
            } else {
                swap_removed(old(self).projectiles@, i as int)
            }),
            *final(self) == (World { projectiles: final(self).projectiles, ..*old(self) }),
    {
        let p = self.projectiles[i];
        if f.lifetime.le(&Scalar::zero()) {
            self.projectiles.swap_remove(i);
            return Impact::Expired;
        }
        if let Some(index) = f.enemy {
            self.projectiles.swap_remove(i);
            if p.aoe_radius.is_positive() {
                return Impact::Blast { shot: p };
            }
            return Impact::Enemy { index, shot: p };
        }
        if !self.can_stand(&f.x, &f.y) {
            self.projectiles.swap_remove(i);
            if p.aoe_radius.is_positive() {
                return Impact::Blast { shot: p };
            }
            return Impact::Wall;
        }
        self.projectiles.set(i, Projectile { x: f.x, y: f.y, lifetime: f.lifetime, ..p });
        Impact::Flies
    }

    /// Drop a transient marker for the renderer where a shot detonated.
    pub fn push_explosion(&mut self, x: Scalar, y: Scalar, radius: Scalar)
        ensures
            final(self).explosions@ == old(self).explosions@.push(
                Explosion {
                    x,
                    y,
                    radius,
                    ttl: Scalar { bits: EXPLOSION_TTL },
                    max_ttl: Scalar { bits: EXPLOSION_TTL },
                },
            ),
            *final(self) == (World { explosions: final(self).explosions, ..*old(self) }),
    {
        let e = Explosion {
            x,
            y,
            radius,
            ttl: Scalar { bits: EXPLOSION_TTL },
            max_ttl: Scalar { bits: EXPLOSION_TTL },
        };
        self.explosions.push(e);
    }

    /// Age out transient explosion markers: given the time that each has left, those with
    /// none left are culled and the others keep their order.
    pub fn update_explosions(&mut self, ttl: &Vec<Scalar>)
        requires
            ttl@.len() == old(self).explosions@.len(),
        ensures
            final(self).explosions@ == aged(
                old(self).explosions@,
                ttl@,
                old(self).explosions@.len() as int,
            ),
            *final(self) == (World { explosions: final(self).explosions, ..*old(self) }),
    {
        let mut kept: Vec<Explosion> = Vec::new();
        for i in 0..self.explosions.len()
            invariant
                *self == *old(self),
                ttl@.len() == self.explosions@.len(),
                kept@ == aged(self.explosions@, ttl@, i as int),
        {
            if ttl[i].is_positive() {
                kept.push(Explosion { ttl: ttl[i], ..self.explosions[i] });
            }
        }
        self.explosions = kept;
    }
}

/// The first `n` markers with the time that they have left, without those that have none.
pub open spec fn aged(markers: Seq<Explosion>, ttl: Seq<Scalar>, n: int) -> Seq<Explosion>
    decreases n,
{
    if n <= 0 {
        Seq::empty()
    } else if !ttl[n - 1].is_nan() && ttl[n - 1].value() > 0 {
        aged(markers, ttl, n - 1).push(Explosion { ttl: ttl[n - 1], ..markers[n - 1] })
    } else {
        aged(markers, ttl, n - 1)
    }
}

/// How shots are made up: a weapon that fires single shots sends one projectile at full
/// speed; one that spreads sends as many as the knobs say, but at least one, across their
/// angle; an explosive one sends a single projectile, slowed down, that detonates within
/// the radius.
pub proof fn law_shot_patterns(w: World, profile: FireProfile)
    ensures
        ({
            let plan = w.plan_of(profile);
            let spreads = profile is Spread;
            let explodes = profile is Explosive;
            &&& plan.pellets >= 1
            &&& !spreads || w.tunables.spread_pellets == 0 ==> plan.pellets == 1
            &&& spreads && w.tunables.spread_pellets > 0 ==> plan.pellets
                == w.tunables.spread_pellets
            &&& plan.spread.bits == if spreads {
                w.tunables.spread_angle.bits
            } else {
                0
            }
            &&& plan.speed_factor.bits == if explodes {
                w.tunables.blast_speed_factor.bits
            } else {
                0x3f80_0000
            }
            &&& plan.aoe_radius.bits == if explodes {
                w.tunables.blast_radius.bits
            } else {
                0
            }
        }),
{
}

/// Projectiles leave from where the player stands, with the crit numbers and the lifetime
/// that the knobs have at that time.
pub proof fn law_projectiles_leave_the_player(
    w: World,
    vx: Scalar,
    vy: Scalar,
    damage: Scalar,
    radius: Scalar,
)
    ensures
        ({
            let p = w.fired(vx, vy, damage, radius);
            &&& p.x == w.player.x && p.y == w.player.y
            &&& p.vx == vx && p.vy == vy
            &&& p.damage == damage
            &&& p.aoe_radius == radius
            &&& p.crit_chance == w.tunables.crit_chance
            &&& p.crit_multiplier == w.tunables.crit_multiplier
            &&& p.lifetime == w.tunables.bullet_lifetime
        }),
{
}

/// How projectiles end. One whose time is up is gone without any effect, even where it would
/// meet someone. Otherwise one that meets an enemy or a wall ends there: an explosive one
/// detonates, another one hits the enemy if there is one. All others fly on.
pub proof fn law_projectiles_end(p: Projectile, f: Flight, passable: bool)
    ensures
        ({
            let impact = impact_of(p, f, passable);
            let over = !f.lifetime.is_nan() && f.lifetime.value() <= 0;
            let meets = f.enemy is Some || !passable;
            let explosive = !p.aoe_radius.is_nan() && p.aoe_radius.value() > 0;
            &&& impact == Impact::Expired <==> over
            &&& impact == Impact::Flies <==> !over && !meets
            &&& impact == (Impact::Blast { shot: p }) <==> !over && meets && explosive
            &&& impact == Impact::Wall <==> !over && f.enemy is None && !passable && !explosive
            &&& !over && !explosive ==> (f.enemy matches Some(index) ==> impact == (Impact::Enemy {
                index,
                shot: p,
            }))
        }),
{
}

/// The markers of blasts age: each takes the time that it has left, and those that have none
/// left are gone; the others keep their order.
pub proof fn law_markers_age(markers: Seq<Explosion>, ttl: Seq<Scalar>, n: int)
    requires
        0 <= n <= markers.len(),
        markers.len() == ttl.len(),
    ensures
        aged(markers, ttl, n) == Seq::new(
            n as nat,
            |i: int| Explosion { ttl: ttl[i], ..markers[i] },
        ).filter(|e: Explosion| !e.ttl.is_nan() && e.ttl.value() > 0),
    decreases n,
{
    reveal(Seq::filter);
    let all = Seq::new(n as nat, |i: int| Explosion { ttl: ttl[i], ..markers[i] });
    if n > 0 {
        law_markers_age(markers, ttl, n - 1);
        assert(all.drop_last() =~= Seq::new(
            (n - 1) as nat,
            |i: int| Explosion { ttl: ttl[i], ..markers[i] },
        ));
    } else {
        assert(aged(markers, ttl, n) =~= all.filter(
            |e: Explosion| !e.ttl.is_nan() && e.ttl.value() > 0,
        ));
    }
}

/// The pattern of a shot is that of the active weapon; without one it is a single shot.
pub proof fn law_active_weapon_fires(w: World)
    requires
        w.wf(),
    ensures
        w.loadout@.len() == 0 ==> w.active_profile() == FireProfile::Single,
        w.loadout@.len() > 0 ==> w.active_profile() == w.loadout@[w.active as int].profile,
{
}

} // verus!
