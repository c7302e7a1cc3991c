//! Explosions: a shot that bursts strikes every enemy within its radius.

use vstd::prelude::*;

use crate::game::entity::{Content, EnemyInstance, Explosion, Projectile};
use crate::game::loot::loot_fits;
use crate::game::nearby::within;
use crate::game::tunables::EXPLOSION_TTL;
use crate::game::world::World;
use crate::procgen::spawn::swap_removed;
use crate::rules::combat::Aimed;
use crate::scalar::Scalar;

verus! {

/// Whether one world becomes the other when a blast gets to the enemies from the `i`-th on:
/// those within the radius are hit, one after the other, and the last enemy takes the place
/// of one that dies. `d2` and `aimed` are the squared distances of the enemies from the
/// blast and the shots at them.
pub open spec fn blasted(
    before: World,
    after: World,
    i: int,
    d2: Seq<Scalar>,
    aimed: Seq<Aimed>,
    r2: Scalar,
    p: Projectile,
    content: Content,
) -> bool
    decreases d2.len() - i,
{
    if i < 0 || i >= d2.len() {
        after == before
    } else if !within(d2[i], r2) {
        blasted(before, after, i + 1, d2, aimed, r2, p, content)
    } else {
        exists|mid: World|
            #![trigger mid.is_after_hit(before, i, p, aimed[i], content)]
            mid.is_after_hit(before, i, p, aimed[i], content) && if before.shot_kills(
                i,
                p,
                aimed[i],
            ) {
                blasted(
                    mid,
                    after,
                    i,
                    swap_removed(d2, i),
                    swap_removed(aimed, i),
                    r2,
                    p,
                    content,
                )
            } else {
                blasted(mid, after, i + 1, d2, aimed, r2, p, content)
            }
    }
}

impl World {
    /// Whether the counters of this world can take so many hits, deadly or not.
    pub open spec fn can_count_hits(self, n: int) -> bool {
        &&& self.kills + n <= u32::MAX
        &&& self.xp + n * u32::MAX <= u64::MAX
        &&& self.event_seq + 2 * n < u64::MAX
        &&& self.next_entity_id + n <= u64::MAX
    }

    /// Whether this world is the other one with one more marker for a blast.
    pub open spec fn is_marked(self, before: World, x: Scalar, y: Scalar, radius: Scalar) -> bool {
        &&& self.explosions@ == before.explosions@.push(
            Explosion {
                x,
                y,
                radius,
                ttl: Scalar { bits: EXPLOSION_TTL },
                max_ttl: Scalar { bits: EXPLOSION_TTL },
            },
        )
        &&& self == (World { explosions: self.explosions, ..before })
    }

    /// Whether this world is the other one after a blast at `(x, y)`: everyone within the
    /// radius was hit, and a marker shows the blast.
    pub open spec fn is_after_blast(
        self,
        before: World,
        x: Scalar,
        y: Scalar,
        p: Projectile,
        d2: Seq<Scalar>,
        r2: Scalar,
        aimed: Seq<Aimed>,
        content: Content,
    ) -> bool {
        exists|w: World|
            #![trigger blasted(before, w, 0, d2, aimed, r2, p, content)]
            blasted(before, w, 0, d2, aimed, r2, p, content) && self.is_marked(
                w,
                x,
                y,
                p.aoe_radius,
            )
    }

    /// Detonate an explosive projectile at `(x, y)`: damages every enemy within the radius,
    /// and drops a marker for the renderer. Each hit is an event of its own. Given are the
    /// squared distances of the enemies from the blast, the radius squared, and the shots.
    pub fn resolve_explosion(
        &mut self,
        x: Scalar,
        y: Scalar,
        p: &Projectile,
        d2: Vec<Scalar>,
        r2: &Scalar,
        aimed: Vec<Aimed>,
        content: &Content,
    )
        requires
            old(self).wf(),
            d2@.len() == old(self).enemies@.len(),
            aimed@.len() == old(self).enemies@.len(),
            old(self).can_count_hits(old(self).enemies@.len() as int),
            forall|j: int|
                0 <= j < old(self).enemies@.len() ==> loot_fits(
                    *content,
                    (#[trigger] old(self).enemies@[j]).archetype as int,
                ),
        ensures
            final(self).wf(),
            final(self).is_after_blast(*old(self), x, y, *p, d2@, *r2, aimed@, *content),
    {
        let ghost start = *self;
        let ghost d0 = d2@;
        let ghost a0 = aimed@;
        let mut d2 = d2;
        let mut aimed = aimed;
        let mut i: usize = 0;
        while i < self.enemies.len()
            invariant
                self.wf(),
                forall|j: int|
                    0 <= j < self.enemies@.len() ==> loot_fits(
                        *content,
                        (#[trigger] self.enemies@[j]).archetype as int,
                    ),
                i <= self.enemies@.len(),
                d2@.len() == self.enemies@.len(),
                aimed@.len() == self.enemies@.len(),
                self.can_count_hits(self.enemies@.len() - i),
                forall|after: World| #[trigger]
                    blasted(*self, after, i as int, d2@, aimed@, *r2, *p, *content) ==> blasted(
                        start,
                        after,
                        0,
                        d0,
                        a0,
                        *r2,
                        *p,
                        *content,
                    ),
            decreases self.enemies@.len() - i,
        {
            let ghost cur = *self;
            let ghost (dd, aa, k) = (d2@, aimed@, i as int);
            if d2[i].le(r2) {
                let a: Aimed = aimed[i];
                if self.hit_enemy(i, p, &a, content) {
                    d2.swap_remove(i);
                    aimed.swap_remove(i);
                    assert(d2@ =~= swap_removed(dd, k));
                    assert(aimed@ =~= swap_removed(aa, k));
                } else {
                    i = i + 1;
                }
                assert(self.is_after_hit(cur, k, *p, aa[k], *content));
                proof {
                    lemma_enemies_after_hit(cur, *self, k, *p, aa[k], *content);
                    assert forall|j: int| 0 <= j < self.enemies@.len() implies loot_fits(
                        *content,
                        (#[trigger] self.enemies@[j]).archetype as int,
                    ) by {
                        let from = if cur.shot_kills(k, *p, aa[k]) && j == k {
                            cur.enemies@.len() - 1
                        } else {
                            j
                        };
                        assert(self.enemies@[j].archetype == cur.enemies@[from].archetype);
                    }
                }
                assert forall|after: World| #[trigger]
                    blasted(*self, after, i as int, d2@, aimed@, *r2, *p, *content) implies blasted(
                    start,
                    after,
                    0,
                    d0,
                    a0,
                    *r2,
                    *p,
                    *content,
                ) by {
                    assert(blasted(cur, after, k, dd, aa, *r2, *p, *content));
                }
            } else {
                i = i + 1;
                assert forall|after: World| #[trigger]
                    blasted(*self, after, i as int, d2@, aimed@, *r2, *p, *content) implies blasted(
                    start,
                    after,
                    0,
                    d0,
                    a0,
                    *r2,
                    *p,
                    *content,
                ) by {
                    assert(blasted(cur, after, k, dd, aa, *r2, *p, *content));
                }
            }
        }
        let ghost w = *self;
        assert(blasted(w, w, i as int, d2@, aimed@, *r2, *p, *content));
        assert(blasted(start, w, 0, d0, a0, *r2, *p, *content));
        self.push_explosion(x, y, p.aoe_radius);
        assert(self.is_marked(w, x, y, p.aoe_radius));
    }
}

/// What a hit does to the enemies: the one that was shot is struck, and removed if it died.
proof fn lemma_enemies_after_hit(
    before: World,
    after: World,
    i: int,
    p: Projectile,
    a: Aimed,
    content: Content,
)
    requires
        0 <= i < before.enemies@.len(),
        after.is_after_hit(before, i, p, a, content),
    ensures
        before.shot_kills(i, p, a) ==> after.enemies@ =~= swap_removed(before.enemies@, i),
        !before.shot_kills(i, p, a) ==> {
            &&& after.enemies@.len() == before.enemies@.len()
            &&& forall|j: int|
                0 <= j < before.enemies@.len() && j != i ==> after.enemies@[j]
                    == #[trigger] before.enemies@[j]
            &&& after.enemies@[i].id == before.enemies@[i].id
            &&& after.enemies@[i].archetype == before.enemies@[i].archetype
            &&& after.enemies@[i].awake
        },
{
    let w = choose|w: World|
        #![trigger w.is_after_shot(before, i, p, a)]
        w.is_after_shot(before, i, p, a) && if before.shot_kills(i, p, a) {
            after.is_after_kill(w, i, content)
        } else {
            after == w
        };
    if before.shot_kills(i, p, a) {
        assert(swap_removed(w.enemies@, i) =~= swap_removed(before.enemies@, i));
    }
}

/// Whether the enemy at `j` is left alone by a blast that gets to the enemies from the
/// `i`-th on.
pub open spec fn spared(d2: Seq<Scalar>, r2: Scalar, i: int, j: int) -> bool {
    0 <= j < d2.len() && (j < i || !within(d2[j], r2))
}

/// Those that a blast is past or does not reach are left alone.
proof fn lemma_blast_spares(
    before: World,
    after: World,
    i: int,
    d2: Seq<Scalar>,
    aimed: Seq<Aimed>,
    r2: Scalar,
    p: Projectile,
    content: Content,
)
    requires
        blasted(before, after, i, d2, aimed, r2, p, content),
        0 <= i <= d2.len(),
        d2.len() == before.enemies@.len(),
        aimed.len() == before.enemies@.len(),
    ensures
        forall|j: int| #[trigger]
            spared(d2, r2, i, j) ==> after.enemies@.contains(before.enemies@[j]),
    decreases d2.len() - i,
{
    if i == d2.len() {
        assert forall|j: int| #[trigger] spared(d2, r2, i, j) implies after.enemies@.contains(
            before.enemies@[j],
        ) by {
            assert(after.enemies@[j] == before.enemies@[j]);
        }
    } else if !within(d2[i], r2) {
        lemma_blast_spares(before, after, i + 1, d2, aimed, r2, p, content);
        assert forall|j: int| #[trigger] spared(d2, r2, i, j) implies after.enemies@.contains(
            before.enemies@[j],
        ) by {
            assert(spared(d2, r2, i + 1, j));
        }
    } else {
        let mid = next_world(before, after, i, d2, aimed, r2, p, content);
        lemma_enemies_after_hit(before, mid, i, p, aimed[i], content);
        if before.shot_kills(i, p, aimed[i]) {
            let fewer = swap_removed(d2, i);
            lemma_blast_spares(mid, after, i, fewer, swap_removed(aimed, i), r2, p, content);
            assert forall|j: int| #[trigger] spared(d2, r2, i, j) implies after.enemies@.contains(
                before.enemies@[j],
            ) by {
                let k = if j == d2.len() - 1 {
                    i
                } else {
                    j
                };
                assert(spared(fewer, r2, i, k));
                assert(mid.enemies@[k] == before.enemies@[j]);
            }
        } else {
            lemma_blast_spares(mid, after, i + 1, d2, aimed, r2, p, content);
            assert forall|j: int| #[trigger] spared(d2, r2, i, j) implies after.enemies@.contains(
                before.enemies@[j],
            ) by {
                assert(spared(d2, r2, i + 1, j));
                assert(mid.enemies@[j] == before.enemies@[j]);
            }
        }
    }
}

/// The world after the first hit of a blast.
spec fn next_world(
    before: World,
    after: World,
    i: int,
    d2: Seq<Scalar>,
    aimed: Seq<Aimed>,
    r2: Scalar,
    p: Projectile,
    content: Content,
) -> World {
    choose|mid: World|
        #![trigger mid.is_after_hit(before, i, p, aimed[i], content)]
        mid.is_after_hit(before, i, p, aimed[i], content) && if before.shot_kills(
            i,
            p,
            aimed[i],
        ) {
            blasted(mid, after, i, swap_removed(d2, i), swap_removed(aimed, i), r2, p, content)
        } else {
            blasted(mid, after, i + 1, d2, aimed, r2, p, content)
        }
}

/// Whether no two enemies share an id.
pub open spec fn distinct_ids(enemies: Seq<EnemyInstance>) -> bool {
    forall|i: int, j: int|
        0 <= i < j < enemies.len() ==> (#[trigger] enemies[i]).id != (#[trigger] enemies[j]).id
}

/// Whether every enemy with the given id is awake. Where there is none, none sleeps.
pub open spec fn awake_if_alive(enemies: Seq<EnemyInstance>, id: u64) -> bool {
    forall|m: int|
        0 <= m < enemies.len() && (#[trigger] enemies[m]).id == id ==> enemies[m].awake
}

/// Nobody joins during a blast.
proof fn lemma_blast_brings_nobody(
    before: World,
    after: World,
    i: int,
    d2: Seq<Scalar>,
    aimed: Seq<Aimed>,
    r2: Scalar,
    p: Projectile,
    content: Content,
    id: u64,
)
    requires
        blasted(before, after, i, d2, aimed, r2, p, content),
        0 <= i <= d2.len(),
        d2.len() == before.enemies@.len(),
        aimed.len() == before.enemies@.len(),
        forall|m: int| 0 <= m < before.enemies@.len() ==> (#[trigger] before.enemies@[m]).id != id,
    ensures
        forall|m: int| 0 <= m < after.enemies@.len() ==> (#[trigger] after.enemies@[m]).id != id,
    decreases d2.len() - i,
{
    if i == d2.len() {
    } else if !within(d2[i], r2) {
        lemma_blast_brings_nobody(before, after, i + 1, d2, aimed, r2, p, content, id);
    } else {
        let mid = next_world(before, after, i, d2, aimed, r2, p, content);
        lemma_enemies_after_hit(before, mid, i, p, aimed[i], content);
        if before.shot_kills(i, p, aimed[i]) {
            assert forall|m: int| 0 <= m < mid.enemies@.len() implies (
            #[trigger] mid.enemies@[m]).id != id by {
                let from = if m == i {
                    before.enemies@.len() - 1
                } else {
                    m
                };
                assert(mid.enemies@[m] == before.enemies@[from]);
            }
            lemma_blast_brings_nobody(
                mid,
                after,
                i,
                swap_removed(d2, i),
                swap_removed(aimed, i),
                r2,
                p,
                content,
                id,
            );
        } else {
            assert forall|m: int| 0 <= m < mid.enemies@.len() implies (
            #[trigger] mid.enemies@[m]).id != id by {
                assert(mid.enemies@[m].id == before.enemies@[m].id);
            }
            lemma_blast_brings_nobody(mid, after, i + 1, d2, aimed, r2, p, content, id);
        }
    }
}

/// An enemy that a blast will still get to, or that is awake already, is awake or dead
/// after it.
proof fn lemma_blast_wakes(
    before: World,
    after: World,
    i: int,
    d2: Seq<Scalar>,
    aimed: Seq<Aimed>,
    r2: Scalar,
    p: Projectile,
    content: Content,
    j: int,
)
    requires
        blasted(before, after, i, d2, aimed, r2, p, content),
        0 <= i <= d2.len(),
        d2.len() == before.enemies@.len(),
        aimed.len() == before.enemies@.len(),
        distinct_ids(before.enemies@),
        0 <= j < d2.len(),
        (i <= j && within(d2[j], r2)) || before.enemies@[j].awake,
    ensures
        awake_if_alive(after.enemies@, before.enemies@[j].id),
    decreases d2.len() - i,
{
    let id = before.enemies@[j].id;
    if i == d2.len() {
        assert forall|m: int|
            0 <= m < after.enemies@.len() && (#[trigger] after.enemies@[m]).id
                == id implies after.enemies@[m].awake by {
            assert(after.enemies@[m] == before.enemies@[m]);
            assert(m == j);
        }
    } else if !within(d2[i], r2) {
        lemma_blast_wakes(before, after, i + 1, d2, aimed, r2, p, content, j);
    } else {
        let mid = next_world(before, after, i, d2, aimed, r2, p, content);
        lemma_enemies_after_hit(before, mid, i, p, aimed[i], content);
        if before.shot_kills(i, p, aimed[i]) {
            let last = d2.len() - 1;
            let fewer = swap_removed(d2, i);
            assert forall|m: int| 0 <= m < mid.enemies@.len() implies #[trigger] mid.enemies@[m]
                == before.enemies@[if m == i {
                last
            } else {
                m
            }] by {}
            assert(distinct_ids(mid.enemies@)) by {
                assert forall|a: int, b: int| 0 <= a < b < mid.enemies@.len() implies (
                #[trigger] mid.enemies@[a]).id != (#[trigger] mid.enemies@[b]).id by {
                    let x = if a == i {
                        last
                    } else {
                        a
                    };
                    let y = if b == i {
                        last
                    } else {
                        b
                    };
                    assert(before.enemies@[x].id != before.enemies@[y].id);
                }
            }
            if j == i {
                assert forall|m: int| 0 <= m < mid.enemies@.len() implies (
                #[trigger] mid.enemies@[m]).id != id by {
                    let x = if m == i {
                        last
                    } else {
                        m
                    };
                    assert(x != i);
                    assert(before.enemies@[x].id != before.enemies@[i].id);
                }
                lemma_blast_brings_nobody(
                    mid,
                    after,
                    i,
                    fewer,
                    swap_removed(aimed, i),
                    r2,
                    p,
                    content,
                    id,
                );
            } else {
                let k = if j == last {
                    i
                } else {
                    j
                };
                assert(mid.enemies@[k] == before.enemies@[j]);
                lemma_blast_wakes(
                    mid,
                    after,
                    i,
                    fewer,
                    swap_removed(aimed, i),
                    r2,
                    p,
                    content,
                    k,
                );
            }
        } else {
            assert(distinct_ids(mid.enemies@)) by {
                assert forall|a: int, b: int| 0 <= a < b < mid.enemies@.len() implies (
                #[trigger] mid.enemies@[a]).id != (#[trigger] mid.enemies@[b]).id by {
                    assert(mid.enemies@[a].id == before.enemies@[a].id);
                    assert(mid.enemies@[b].id == before.enemies@[b].id);
                }
            }
            assert(mid.enemies@[j].id == id);
            lemma_blast_wakes(mid, after, i + 1, d2, aimed, r2, p, content, j);
        }
    }
}

/// A blast leaves those alone that it does not reach, and everyone that it reaches is awake
/// after it or dead.
pub proof fn law_blast_strikes_what_is_in_reach(
    before: World,
    after: World,
    x: Scalar,
    y: Scalar,
    p: Projectile,
    d2: Seq<Scalar>,
    r2: Scalar,
    aimed: Seq<Aimed>,
    content: Content,
    j: int,
)
    requires
        before.wf(),
        after.is_after_blast(before, x, y, p, d2, r2, aimed, content),
        d2.len() == before.enemies@.len(),
        aimed.len() == before.enemies@.len(),
        0 <= j < d2.len(),
    ensures
        !within(d2[j], r2) ==> after.enemies@.contains(before.enemies@[j]),
        within(d2[j], r2) ==> awake_if_alive(after.enemies@, before.enemies@[j].id),
{
    let w = choose|w: World|
        #![trigger blasted(before, w, 0, d2, aimed, r2, p, content)]
        blasted(before, w, 0, d2, aimed, r2, p, content) && after.is_marked(w, x, y, p.aoe_radius);
    if within(d2[j], r2) {
        lemma_blast_wakes(before, w, 0, d2, aimed, r2, p, content, j);
    } else {
        lemma_blast_spares(before, w, 0, d2, aimed, r2, p, content);
        assert(spared(d2, r2, 0, j));
    }
}

} // verus!
