//! Spawn waves: when one is due, where its enemies appear and which they are.

use vstd::arithmetic::power2::pow2;
use vstd::prelude::*;

use crate::center::{center, center_of, law_centers_are_halfway};
use crate::game::entity::{archetype_speed, speed_of, Content, EnemyInstance};
use crate::game::world::{event_seed, law_middle_of_floor_is_floor, on_floor, World};
use crate::procgen::flow::{cell_of, law_goal_is_at_zero, law_walls_are_unreachable, UNREACHABLE};
use crate::procgen::spawn::{
    far_cells, law_as_many_points_as_asked_for, law_spawn_points, lemma_points_keep_the_seed,
    pick_spawn_points, spawn_points,
};
use crate::procgen::tilemap::{on_grid, Tile};
use crate::rng::{Draw, RngState, SeededRng};
use crate::scalar::Scalar;
use crate::weighted::{
    entry_of, law_entries_are_picked_by_weight, law_every_number_is_owned, lemma_weight_before,
    lemma_weight_grows, lemma_weight_of_prefix, owner, total_weight, weight_before, weight_of_all,
};

verus! {

/// One enemy of a wave: its archetype, and the tile it appears on.
#[derive(Debug, Clone, Copy, PartialEq, Eq, Structural)]
pub struct Spawn {
    pub archetype: usize,
    pub x: u32,
    pub y: u32,
}

/// The weights that address one of the `n` archetypes.
pub open spec fn addressed(weights: Seq<u32>, n: int) -> Seq<u32> {
    if n < weights.len() {
        weights.take(n)
    } else {
        weights
    }
}

/// Which of `n` archetypes is picked, and the generator after that: one in proportion to the
/// weights, or any with the same chance where nothing has weight.
pub open spec fn picked_archetype(g: RngState, weights: Seq<u32>, n: int) -> (int, RngState) {
    let own = addressed(weights, n);
    let total = weight_of_all(own);
    if total == 0 {
        let last = (n - 1) as u64;
        (g.range64(0, last) as int, g.after(Draw::Range64 { first: 0, last }))
    } else {
        let hi = (total - 1) as u32;
        (owner(own, g.range32(0, hi) as int), g.after(Draw::Range32 { lo: 0, hi }))
    }
}

/// Pick an archetype index in `0..n` for a wave spawn, biased by `weights` (index =
/// archetype). Weight `0` excludes a type. When every addressable weight is zero it falls
/// back to a uniform pick over all `n` archetypes. Only the first `min(n, weights.len())`
/// archetypes are weight-addressable.
pub fn pick_weighted_archetype(rng: &mut SeededRng, weights: &[u32], n: usize) -> (i: usize)
    requires
        n > 0,
        weights@.len() <= u32::MAX,
        weight_of_all(addressed(weights@, n as int)) <= u32::MAX,
    ensures
        (i as int, final(rng)@) == picked_archetype(old(rng)@, weights@, n as int),
        i < n,
{
    let m: usize = if n < weights.len() { n } else { weights.len() };
    let mut own: Vec<u32> = Vec::new();
    for k in 0..m
        invariant
            m <= weights@.len(),
            own@ == weights@.take(k as int),
    {
        own.push(weights[k]);
        assert(own@ =~= weights@.take(k + 1));
    }
    assert(own@ =~= addressed(weights@, n as int));
    proof {
        lemma_weight_grows(own@, 0, own@.len() as int);
    }
    let total: u64 = total_weight(&own);
    if total == 0 {
        return rng.range_u64(0, n as u64 - 1) as usize;
    }
    let pick: u32 = rng.range_u32(0, (total - 1) as u32);
    entry_of(&own, pick as u64)
}

/// Where weights are set, only archetypes that have one are picked; and an archetype that is
/// picked is always one of the roster.
pub proof fn law_zero_weights_are_never_picked(g: RngState, weights: Seq<u32>, n: int)
    requires
        0 < n <= u64::MAX,
        weight_of_all(addressed(weights, n)) <= u32::MAX,
    ensures
        ({
            let i = picked_archetype(g, weights, n).0;
            &&& 0 <= i < n
            &&& weight_of_all(addressed(weights, n)) > 0 ==> i < weights.len() && weights[i] > 0
        }),
{
    let own = addressed(weights, n);
    lemma_weight_grows(own, 0, own.len() as int);
    let total = weight_of_all(own);
    if total > 0 {
        law_every_number_is_owned(own, g.range32(0, (total - 1) as u32) as int);
    }
}

/// The archetypes that are picked for the given points, one after the other, and the
/// generator after that.
pub open spec fn staffed(
    g: RngState,
    points: Seq<(u32, u32)>,
    weights: Seq<u32>,
    n: int,
    count: int,
) -> (Seq<Spawn>, RngState)
    decreases count,
{
    if count <= 0 {
        (Seq::empty(), g)
    } else {
        let (before, g1) = staffed(g, points, weights, n, count - 1);
        let (archetype, g2) = picked_archetype(g1, weights, n);
        (
            before.push(
                Spawn {
                    archetype: archetype as usize,
                    x: points[count - 1].0,
                    y: points[count - 1].1,
                },
            ),
            g2,
        )
    }
}

impl World {
    /// Whether waves come at all.
    pub open spec fn spawns(self, content: Content) -> bool {
        content.enemies@.len() > 0 && self.tunables.auto_spawn
    }

    /// Whether a wave comes when the timer has reached the given time.
    pub open spec fn wave_due(self, timer: Scalar) -> bool {
        !(!timer.is_nan() && timer.value() > 0) && self.enemies@.len() < self.tunables.max_enemies
    }

    /// How many enemies a wave may bring: a batch, as far as the cap allows.
    pub open spec fn wave_budget(self) -> int {
        let room = self.tunables.max_enemies - self.enemies@.len();
        if room < self.tunables.spawn_batch {
            room
        } else {
            self.tunables.spawn_batch as int
        }
    }

    /// The wave that comes next.
    pub open spec fn next_wave(self, content: Content) -> Seq<Spawn> {
        let (points, g) = spawn_points(
            self.event_rng(),
            self.flow,
            self.wave_budget() as nat,
            self.tunables.spawn_min_distance,
        );
        staffed(
            g,
            points,
            self.tunables.spawn_weights@,
            content.enemies@.len() as int,
            points.len() as int,
        ).0
    }

    /// The enemies of a wave enter the world, one after the other, each in the middle of its
    /// tile.
    fn enter_wave(&mut self, wave: &Vec<Spawn>, content: &Content)
        requires
            old(self).wf(),
            old(self).next_entity_id + wave@.len() <= u64::MAX,
            forall|k: int|
                0 <= k < wave@.len() ==> (#[trigger] wave@[k]).archetype < content.enemies@.len(),
        ensures
            final(self).wf(),
            final(self).enemies@ == old(self).enemies@ + arrivals(
                wave@,
                old(self).next_entity_id,
                *content,
            ),
            *final(self) == (World {
                enemies: final(self).enemies,
                next_entity_id: (old(self).next_entity_id + wave@.len()) as u64,
                ..*old(self)
            }),
    {
        let ghost first = self.next_entity_id;
        assert(arrivals(wave@, first, *content).take(0) =~= Seq::empty());
        assert(self.enemies@ =~= old(self).enemies@ + arrivals(wave@, first, *content).take(0));
        for k in 0..wave.len()
            invariant
                self.wf(),
                first == old(self).next_entity_id,
                first + wave@.len() <= u64::MAX,
                self.next_entity_id == first + k,
                forall|k: int|
                    0 <= k < wave@.len() ==> (#[trigger] wave@[k]).archetype
                        < content.enemies@.len(),
                self.enemies@ == old(self).enemies@ + arrivals(wave@, first, *content).take(
                    k as int,
                ),
                *self == (World {
                    enemies: self.enemies,
                    next_entity_id: self.next_entity_id,
                    ..*old(self)
                }),
        {
            let s: Spawn = wave[k];
            self.push_enemy(s.archetype, center_of(s.x), center_of(s.y), content);
            assert(self.enemies@ =~= old(self).enemies@ + arrivals(wave@, first, *content).take(
                k + 1,
            ));
        }
        assert(arrivals(wave@, first, *content).take(wave@.len() as int) =~= arrivals(
            wave@,
            first,
            *content,
        ));
    }

    /// The wave that comes when one is due: its enemies, planned as one event.
    fn plan_wave(&mut self, content: &Content) -> (wave: Vec<Spawn>)
        requires
            old(self).wf(),
            old(self).event_seq < u64::MAX,
            0 < content.enemies@.len(),
            old(self).enemies@.len() < old(self).tunables.max_enemies,
            weight_of_all(
                addressed(old(self).tunables.spawn_weights@, content.enemies@.len() as int),
            ) <= u32::MAX,
        ensures
            wave@ == old(self).next_wave(*content),
            *final(self) == (World {
                event_seq: (old(self).event_seq + 1) as u64,
                ..*old(self)
            }),
    {
        let room: usize = self.tunables.max_enemies - self.enemies.len();
        let budget: usize = if room < self.tunables.spawn_batch {
            room
        } else {
            self.tunables.spawn_batch
        };
        let mut rng = self.next_event_rng();
        let points = pick_spawn_points(
            &mut rng,
            &self.flow,
            budget,
            self.tunables.spawn_min_distance,
        );
        let ghost g = rng@;
        let ghost weights = self.tunables.spawn_weights@;
        let ghost n = content.enemies@.len() as int;
        let mut wave: Vec<Spawn> = Vec::new();
        for k in 0..points.len()
            invariant
                n == content.enemies@.len(),
                n > 0,
                weights == self.tunables.spawn_weights@,
                weights.len() == 12,
                weight_of_all(addressed(weights, n)) <= u32::MAX,
                (wave@, rng@) == staffed(g, points@, weights, n, k as int),
        {
            let (x, y) = points[k];
            let archetype: usize = pick_weighted_archetype(
                &mut rng,
                self.tunables.spawn_weights.as_slice(),
                content.enemies.len(),
            );
            wave.push(Spawn { archetype, x, y });
        }
        wave
    }

    /// Spawn a wave on the timer, whose new time is given: distance-biased, never on the
    /// player, never above the cap. Each wave is one event. Without enemy content, or with
    /// waves suspended, nothing happens and the timer stands still. The timer starts anew
    /// even when the cap holds a wave back, so that there is no burst the instant headroom
    /// opens up.
    pub fn update_spawning(&mut self, timer: Scalar, content: &Content)
        requires
            old(self).wf(),
            old(self).event_seq < u64::MAX,
            old(self).next_entity_id + old(self).tunables.spawn_batch <= u64::MAX,
            weight_of_all(
                addressed(old(self).tunables.spawn_weights@, content.enemies@.len() as int),
            ) <= u32::MAX,
        ensures
            final(self).wf(),
            !old(self).spawns(*content) ==> *final(self) == *old(self),
            old(self).spawns(*content) && !old(self).wave_due(timer) ==> *final(self) == (World {
                spawn_timer: if !timer.is_nan() && timer.value() <= 0 {
                    old(self).tunables.spawn_interval
                } else {
                    timer
                },
                ..*old(self)
            }),
            old(self).spawns(*content) && old(self).wave_due(timer) ==> ({
                let wave = old(self).next_wave(*content);
                &&& final(self).enemies@ == old(self).enemies@ + arrivals(
                    wave,
                    old(self).next_entity_id,
                    *content,
                )
                &&& *final(self) == (World {
                    enemies: final(self).enemies,
                    spawn_timer: old(self).tunables.spawn_interval,
                    event_seq: (old(self).event_seq + 1) as u64,
                    next_entity_id: (old(self).next_entity_id + wave.len()) as u64,
                    ..*old(self)
                })
            }),
    {
        if content.enemies.len() == 0 || !self.tunables.auto_spawn {
            return ;
        }
        let interval = self.tunables.spawn_interval;
        self.spawn_timer = timer;
        if timer.is_positive() || self.enemies.len() >= self.tunables.max_enemies {
            if timer.le(&Scalar::zero()) {
                self.spawn_timer = interval;
            }
            return ;
        }
        self.spawn_timer = interval;
        let ghost before = *self;
        assert(before.next_wave(*content) == old(self).next_wave(*content));
        let wave = self.plan_wave(content);
        proof {
            let n = content.enemies.len();
            law_waves_keep_to_the_rules(before, *content);
        }
        self.enter_wave(&wave, content);
    }

    /// Construct and insert one live enemy of `archetype` at `(x, y)`, allocating a fresh
    /// entity id. It starts at full life, dormant.
    pub fn push_enemy(&mut self, archetype: usize, x: Scalar, y: Scalar, content: &Content)
        requires
            old(self).wf(),
            old(self).next_entity_id < u64::MAX,
            archetype < content.enemies@.len(),
        ensures
            final(self).wf(),
            final(self).enemies@ == old(self).enemies@.push(
                fresh_enemy(old(self).next_entity_id, archetype, x, y, *content),
            ),
            *final(self) == (World {
                enemies: final(self).enemies,
                next_entity_id: (old(self).next_entity_id + 1) as u64,
                ..*old(self)
            }),
    {
        let arch = &content.enemies[archetype];
        let id: u64 = self.alloc_id();
        let e = EnemyInstance {
            id,
            x,
            y,
            archetype,
            combatant: arch.as_combatant(),
            speed: archetype_speed(arch.id.as_str()),
            awake: false,
            facing: Scalar { bits: 0 },
        };
        self.enemies.push(e);
    }

    /// Spawn `count` enemies of `archetype` on distance-biased floor tiles at least
    /// `min_distance` from the player, as one event. Clamps `archetype` to the roster;
    /// no-op if there's no enemy content.
    pub fn debug_spawn(
        &mut self,
        archetype: usize,
        count: usize,
        min_distance: u32,
        content: &Content,
    )
        requires
            old(self).wf(),
            old(self).event_seq < u64::MAX,
            old(self).next_entity_id + count <= u64::MAX,
        ensures
            final(self).wf(),
            content.enemies@.len() == 0 ==> *final(self) == *old(self),
            content.enemies@.len() > 0 ==> ({
                let wave = crewed(
                    spawn_points(
                        old(self).event_rng(),
                        old(self).flow,
                        count as nat,
                        min_distance,
                    ).0,
                    clamped_archetype(archetype, *content),
                );
                &&& final(self).enemies@ == old(self).enemies@ + arrivals(
                    wave,
                    old(self).next_entity_id,
                    *content,
                )
                &&& *final(self) == (World {
                    enemies: final(self).enemies,
                    event_seq: (old(self).event_seq + 1) as u64,
                    next_entity_id: (old(self).next_entity_id + wave.len()) as u64,
                    ..*old(self)
                })
            }),
    {
        if content.enemies.len() == 0 {
            return ;
        }
        proof {
            law_spawn_points(self.event_rng(), self.flow, count as nat, min_distance);
        }
        let archetype: usize = clamp_archetype(archetype, content);
        let mut rng = self.next_event_rng();
        let points = pick_spawn_points(&mut rng, &self.flow, count, min_distance);
        let mut wave: Vec<Spawn> = Vec::new();
        for k in 0..points.len()
            invariant
                wave@ == crewed(points@.take(k as int), archetype),
        {
            let (x, y) = points[k];
            wave.push(Spawn { archetype, x, y });
            assert(wave@ =~= crewed(points@.take(k + 1), archetype));
        }
        assert(points@.take(points@.len() as int) =~= points@);
        self.enter_wave(&wave, content);
    }

    /// Spawn one enemy of `archetype` at an explicit world position. No-op if the tile isn't
    /// standable or there's no content. Returns whether it was spawned.
    pub fn debug_spawn_at(&mut self, archetype: usize, x: Scalar, y: Scalar, content: &Content) -> (
    spawned: bool)
        requires
            old(self).wf(),
            old(self).next_entity_id < u64::MAX,
        ensures
            final(self).wf(),
            spawned == (content.enemies@.len() > 0 && on_floor(old(self).map, x, y)),
            !spawned ==> *final(self) == *old(self),
            spawned ==> final(self).enemies@ == old(self).enemies@.push(
                fresh_enemy(
                    old(self).next_entity_id,
                    clamped_archetype(archetype, *content),
                    x,
                    y,
                    *content,
                ),
            ) && *final(self) == (World {
                enemies: final(self).enemies,
                next_entity_id: (old(self).next_entity_id + 1) as u64,
                ..*old(self)
            }),
    {
        if content.enemies.len() == 0 || !self.can_stand(&x, &y) {
            return false;
        }
        let archetype: usize = clamp_archetype(archetype, content);
        self.push_enemy(archetype, x, y, content);
        true
    }
}

/// An enemy as it appears: at full life, dormant.
pub open spec fn fresh_enemy(
    id: u64,
    archetype: usize,
    x: Scalar,
    y: Scalar,
    content: Content,
) -> EnemyInstance {
    let arch = content.enemies@[archetype as int];
    EnemyInstance {
        id,
        x,
        y,
        archetype,
        combatant: arch.profile(),
        speed: speed_of(arch.id@),
        awake: false,
        facing: Scalar { bits: 0 },
    }
}

/// The enemies of a wave as they appear: numbered from `first` on, each in the middle of its
/// tile.
pub open spec fn arrivals(wave: Seq<Spawn>, first: u64, content: Content) -> Seq<EnemyInstance> {
    Seq::new(
        wave.len(),
        |k: int|
            fresh_enemy(
                (first + k) as u64,
                wave[k].archetype,
                center(wave[k].x),
                center(wave[k].y),
                content,
            ),
    )
}

/// An archetype index within the roster: the last one for every index beyond it.
pub open spec fn clamped_archetype(archetype: usize, content: Content) -> usize {
    if archetype < content.enemies@.len() {
        archetype
    } else {
        (content.enemies@.len() - 1) as usize
    }
}

fn clamp_archetype(archetype: usize, content: &Content) -> (i: usize)
    requires
        content.enemies@.len() > 0,
    ensures
        i == clamped_archetype(archetype, *content),
        i < content.enemies@.len(),
{
    if archetype < content.enemies.len() {
        archetype
    } else {
        content.enemies.len() - 1
    }
}

/// One enemy of the same archetype for each of the points.
pub open spec fn crewed(points: Seq<(u32, u32)>, archetype: usize) -> Seq<Spawn> {
    points.map_values(|p: (u32, u32)| Spawn { archetype, x: p.0, y: p.1 })
}

proof fn lemma_staffed(
    g: RngState,
    points: Seq<(u32, u32)>,
    weights: Seq<u32>,
    n: int,
    count: int,
)
    requires
        0 < n <= usize::MAX,
        weight_of_all(addressed(weights, n)) <= u32::MAX,
        0 <= count <= points.len(),
    ensures
        ({
            let wave = staffed(g, points, weights, n, count).0;
            &&& wave.len() == count
            &&& forall|k: int|
                #![trigger wave[k]]
                0 <= k < count ==> wave[k].archetype < n && (wave[k].x, wave[k].y) == points[k]
        }),
    decreases count,
{
    if count > 0 {
        lemma_staffed(g, points, weights, n, count - 1);
        let g1 = staffed(g, points, weights, n, count - 1).1;
        law_zero_weights_are_never_picked(g1, weights, n);
    }
}

/// A wave never brings more enemies than its batch, nor more than the cap has room for;
/// each of them is of the roster and appears on a tile from which the player can be
/// reached, at least the least distance away.
pub proof fn law_waves_keep_to_the_rules(w: World, content: Content)
    requires
        w.wf(),
        0 < content.enemies@.len() <= usize::MAX,
        w.enemies@.len() < w.tunables.max_enemies,
        weight_of_all(addressed(w.tunables.spawn_weights@, content.enemies@.len() as int))
            <= u32::MAX,
    ensures
        ({
            let wave = w.next_wave(content);
            &&& wave.len() <= w.tunables.spawn_batch
            &&& w.enemies@.len() + wave.len() <= w.tunables.max_enemies
            &&& forall|k: int|
                #![trigger wave[k]]
                0 <= k < wave.len() ==> {
                    let tile = (wave[k].x as int, wave[k].y as int);
                    &&& wave[k].archetype < content.enemies@.len()
                    &&& w.flow.at(tile) != UNREACHABLE
                    &&& w.flow.at(tile) >= w.tunables.spawn_min_distance
                }
        }),
{
    let budget = w.wave_budget() as nat;
    let min_distance = w.tunables.spawn_min_distance;
    let (points, g) = spawn_points(w.event_rng(), w.flow, budget, min_distance);
    law_spawn_points(w.event_rng(), w.flow, budget, min_distance);
    lemma_staffed(
        g,
        points,
        w.tunables.spawn_weights@,
        content.enemies@.len() as int,
        points.len() as int,
    );
    let wave = w.next_wave(content);
    assert forall|k: int| #![trigger wave[k]] 0 <= k < wave.len() implies {
        let tile = (wave[k].x as int, wave[k].y as int);
        &&& wave[k].archetype < content.enemies@.len()
        &&& w.flow.at(tile) != UNREACHABLE
        &&& w.flow.at(tile) >= w.tunables.spawn_min_distance
    } by {
        let p = points[k];
        assert(cell_of(p) == (wave[k].x as int, wave[k].y as int));
    }
}

/// The enemies of a wave appear on floor, dormant and at full life.
pub proof fn law_waves_arrive_on_floor(w: World, content: Content, first: u64, k: int)
    requires
        w.wf(),
        w.map.width <= 0x80_0000,
        w.map.height <= 0x80_0000,
        0 < content.enemies@.len() <= usize::MAX,
        w.enemies@.len() < w.tunables.max_enemies,
        weight_of_all(addressed(w.tunables.spawn_weights@, content.enemies@.len() as int))
            <= u32::MAX,
        w.tunables.spawn_min_distance > 0 || w.map.tile(cell_of(w.flow_goal)) == Tile::Floor,
        0 <= k < w.next_wave(content).len(),
    ensures
        ({
            let e = arrivals(w.next_wave(content), first, content)[k];
            &&& on_floor(w.map, e.x, e.y)
            &&& !e.awake
            &&& e.combatant.current_life == e.combatant.max_life
        }),
{
    law_waves_keep_to_the_rules(w, content);
    let s = w.next_wave(content)[k];
    let tile = (s.x as int, s.y as int);
    assert(w.flow.at(tile) != UNREACHABLE);
    let goal = cell_of(w.flow_goal);
    if w.map.tile(tile) == Tile::Wall {
        if tile == goal {
            if on_grid(w.map.width as int, w.map.height as int, goal) {
                law_goal_is_at_zero(w.flow, w.map, goal, tile);
            }
        } else {
            law_walls_are_unreachable(w.flow, w.map, goal, tile);
        }
    }
    law_middle_of_floor_is_floor(w.map, s.x, s.y);
}

/// What the weights come to that address one of the `n` archetypes.
pub open spec fn addressed_total(weights: Seq<u32>, n: int) -> int {
    weight_before(
        weights,
        if n < weights.len() {
            n
        } else {
            weights.len() as int
        },
    )
}

pub proof fn lemma_addressed(weights: Seq<u32>, n: int, i: int)
    requires
        0 <= i <= n,
        i <= weights.len(),
    ensures
        weight_of_all(addressed(weights, n)) == addressed_total(weights, n),
        weight_before(addressed(weights, n), i) == weight_before(weights, i),
{
    let own = addressed(weights, n);
    lemma_weight_before(own, own.len() as int);
    lemma_weight_before(weights, own.len() as int);
    lemma_weight_of_prefix(own, weights, own.len() as int);
    lemma_weight_before(own, i);
    lemma_weight_before(weights, i);
    lemma_weight_of_prefix(own, weights, i);
}

/// Which archetype is picked: the one that owns the number drawn below the weight of all
/// that have one. Where none has, the number drawn is the archetype, any with the same
/// chance.
pub proof fn law_archetypes_are_picked_by_weight(g: RngState, weights: Seq<u32>, n: int)
    requires
        0 < n <= u64::MAX,
        addressed_total(weights, n) <= u32::MAX,
    ensures
        ({
            let total = addressed_total(weights, n);
            let (i, after) = picked_archetype(g, weights, n);
            &&& total == 0 ==> i == g.range64(0, (n - 1) as u64) && after.past == g.past.push(
                Draw::Range64 { first: 0, last: (n - 1) as u64 },
            )
            &&& total > 0 ==> {
                &&& 0 <= i < n
                &&& i < weights.len()
                &&& weight_before(weights, i) <= g.range32(0, (total - 1) as u32) < weight_before(
                    weights,
                    i,
                ) + weights[i]
                &&& after.past == g.past.push(Draw::Range32 { lo: 0, hi: (total - 1) as u32 })
            }
            &&& after.seed == g.seed
        }),
{
    let own = addressed(weights, n);
    lemma_addressed(weights, n, 0);
    lemma_weight_grows(own, 0, own.len() as int);
    let total = weight_of_all(own);
    if total > 0 {
        let pick = g.range32(0, (total - 1) as u32) as int;
        let i = owner(own, pick);
        lemma_weight_before(own, own.len() as int);
        law_every_number_is_owned(own, pick);
        law_entries_are_picked_by_weight(own, pick, i);
        lemma_addressed(weights, n, i);
    }
}

/// What the generator is asked for to pick one of the `n` archetypes.
pub open spec fn request_for(weights: Seq<u32>, n: int) -> Draw {
    let total = addressed_total(weights, n);
    if total == 0 {
        Draw::Range64 { first: 0, last: (n - 1) as u64 }
    } else {
        Draw::Range32 { lo: 0, hi: (total - 1) as u32 }
    }
}

/// Whether an archetype is the one that some state of a generator picks after `k` others.
pub open spec fn picked_in_turn(
    seed: u64,
    weights: Seq<u32>,
    n: int,
    k: int,
    archetype: usize,
) -> bool {
    exists|h: RngState|
        #![trigger later(h, request_for(weights, n), k)]
        h.seed == seed && archetype == picked_archetype(
            later(h, request_for(weights, n), k),
            weights,
            n,
        ).0
}

/// Each enemy of a wave is picked for itself: one request of the generator after the other,
/// all of them the same.
proof fn lemma_staffed_in_turn(
    g: RngState,
    points: Seq<(u32, u32)>,
    weights: Seq<u32>,
    n: int,
    count: int,
    draw: Draw,
    k: int,
)
    requires
        0 < n <= usize::MAX,
        n <= u64::MAX,
        addressed_total(weights, n) <= u32::MAX,
        0 <= count <= points.len(),
        draw == request_for(weights, n),
    ensures
        ({
            let (wave, after) = staffed(g, points, weights, n, count);
            &&& wave.len() == count
            &&& after == later(g, draw, count)
            &&& 0 <= k < count ==> {
                &&& wave[k].archetype == picked_archetype(later(g, draw, k), weights, n).0
                &&& (wave[k].x, wave[k].y) == points[k]
            }
        }),
    decreases count,
{
    if count > 0 {
        lemma_staffed_in_turn(g, points, weights, n, count - 1, draw, k);
        lemma_addressed(weights, n, 0);
        let g1 = later(g, draw, count - 1);
        law_archetypes_are_picked_by_weight(g1, weights, n);
        law_zero_weights_are_never_picked(g1, weights, n);
        assert(g1.past.push(draw) =~= later(g, draw, count).past);
    } else {
        assert(later(g, draw, 0).past =~= g.past);
    }
}

/// The state of a generator after the same request was put to it `n` more times.
pub open spec fn later(g: RngState, draw: Draw, n: int) -> RngState {
    RngState { seed: g.seed, past: g.past + Seq::new(n as nat, |i: int| draw) }
}

/// A wave comes when the timer has run out and there is room under the cap, and then it is
/// as large as it can be: it brings a whole batch, unless the cap has less room or there are
/// fewer tiles far enough from the player to appear on. Each tile takes one enemy, whose
/// archetype is picked by weight for itself.
pub proof fn law_waves_are_full(w: World, content: Content, timer: Scalar, k: int)
    requires
        w.wf(),
        0 < content.enemies@.len() <= usize::MAX,
        w.enemies@.len() < w.tunables.max_enemies,
        !timer.is_nan(),
        timer.value() <= 0,
        addressed_total(w.tunables.spawn_weights@, content.enemies@.len() as int) <= u32::MAX,
    ensures
        w.wave_due(timer),
        w.spawns(content) <==> w.tunables.auto_spawn,
        ({
            let wave = w.next_wave(content);
            let room = w.tunables.max_enemies - w.enemies@.len();
            let batch = w.tunables.spawn_batch;
            let cells = far_cells(w.flow, w.tunables.spawn_min_distance);
            let weights = w.tunables.spawn_weights@;
            let n = content.enemies@.len() as int;
            &&& wave.len() <= batch && wave.len() <= room && wave.len() <= cells.len()
            &&& wave.len() == batch || wave.len() == room || wave.len() == cells.len()
            &&& cells.finite()
            &&& 0 <= k < wave.len() ==> {
                &&& cells.contains((wave[k].x, wave[k].y))
                &&& forall|j: int|
                    #![trigger wave[j]]
                    0 <= j < wave.len() && j != k ==> (wave[j].x, wave[j].y) != (
                        wave[k].x,
                        wave[k].y,
                    )
                &&& picked_in_turn(
                    event_seed(w.world_seed, w.event_seq),
                    weights,
                    n,
                    k,
                    wave[k].archetype,
                )
            }
        }),
{
    let weights = w.tunables.spawn_weights@;
    let n = content.enemies@.len() as int;
    let draw = request_for(weights, n);
    let budget = w.wave_budget() as nat;
    let least = w.tunables.spawn_min_distance;
    let (points, g) = spawn_points(w.event_rng(), w.flow, budget, least);
    law_as_many_points_as_asked_for(w.event_rng(), w.flow, budget, least);
    lemma_points_keep_the_seed(w.event_rng(), w.flow, budget, least);
    let wave = w.next_wave(content);
    lemma_staffed_in_turn(g, points, weights, n, points.len() as int, draw, k);
    if 0 <= k < wave.len() {
        assert(points.to_set().contains(points[k]));
        assert forall|j: int| #![trigger wave[j]] 0 <= j < wave.len() && j != k implies (
            wave[j].x,
            wave[j].y,
        ) != (wave[k].x, wave[k].y) by {
            lemma_staffed_in_turn(g, points, weights, n, points.len() as int, draw, j);
            assert(points[j] != points[k]);
        }
        assert(wave[k].archetype == picked_archetype(later(g, draw, k), weights, n).0);
    }
}

/// Enemies that arrive are numbered in turn from the first free id on, each stands in the
/// middle of its tile, dormant, with the life, armor and evasion of its archetype.
pub proof fn law_arrivals_are_fresh(wave: Seq<Spawn>, first: u64, content: Content, k: int)
    requires
        0 <= k < wave.len(),
        first + wave.len() <= u64::MAX,
        wave[k].x < 0x80_0000,
        wave[k].y < 0x80_0000,
    ensures
        ({
            let e = arrivals(wave, first, content)[k];
            let kind = content.enemies@[wave[k].archetype as int];
            &&& arrivals(wave, first, content).len() == wave.len()
            &&& e.id == first + k
            &&& e.archetype == wave[k].archetype
            &&& e.x.value() == (2 * wave[k].x + 1) * pow2(148)
            &&& e.y.value() == (2 * wave[k].y + 1) * pow2(148)
            &&& e.combatant.max_life == kind.max_life
            &&& e.combatant.current_life == kind.max_life
            &&& e.combatant.armor == kind.armor
            &&& e.combatant.evasion == kind.evasion
            &&& !e.awake
        }),
{
    law_centers_are_halfway(wave[k].x);
    law_centers_are_halfway(wave[k].y);
}

/// Enemies that are asked for are all of the archetype that is asked for, or of the last one
/// where that is none of the roster, and there are as many as asked for, as far as there are
/// tiles far enough from the player.
pub proof fn law_debug_spawns(
    g: RngState,
    w: World,
    content: Content,
    archetype: usize,
    count: nat,
    least: u32,
    k: int,
)
    requires
        w.wf(),
        0 < content.enemies@.len() <= usize::MAX,
    ensures
        ({
            let points = spawn_points(g, w.flow, count, least).0;
            let wave = crewed(points, clamped_archetype(archetype, content));
            let cells = far_cells(w.flow, least);
            &&& wave.len() == if count <= cells.len() {
                count
            } else {
                cells.len()
            }
            &&& 0 <= k < wave.len() ==> {
                &&& cells.contains((wave[k].x, wave[k].y))
                &&& wave[k].archetype == if archetype < content.enemies@.len() {
                    archetype as int
                } else {
                    content.enemies@.len() - 1
                }
            }
        }),
{
    law_as_many_points_as_asked_for(g, w.flow, count, least);
    let points = spawn_points(g, w.flow, count, least).0;
    if 0 <= k < points.len() {
        assert(points.to_set().contains(points[k]));
    }
}

} // verus!
