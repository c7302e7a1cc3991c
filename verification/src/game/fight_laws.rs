//! What holds of every shot that hits, every kill and every blast.

use vstd::arithmetic::power2::pow2;
use vstd::prelude::*;

use crate::game::blast::{blasted, distinct_ids};
use crate::game::entity::{Content, EnemyInstance, Projectile};
use crate::game::loot::kill_drops;
use crate::game::nearby::within;
use crate::game::world::{event_seed, World};
use crate::procgen::spawn::swap_removed;
use crate::rng::{answer_word32, Draw, RngState};
use crate::rules::combat::{Aimed, ShotRoll, Weapon};
use crate::rules::rarity::rolled_rarity;
use crate::scalar::Scalar;

verus! {

/// The generator of an event, before anything was asked of it.
pub open spec fn event_generator(world_seed: u64, event: u64) -> RngState {
    RngState { seed: event_seed(world_seed, event), past: Seq::empty() }
}

/// A kill counts once and pays the XP of its archetype, or none where that is unknown. The
/// enemy that died is gone and all others are there, unchanged. If anything can drop, one
/// event is used up: its first draw decides whether the drop chance is met. If so, one item
/// of the archetype's level and of the rarity that is drawn next lies where the enemy was,
/// under the next free id, and everything else on the ground is as it was.
pub proof fn law_kills_pay(before: World, after: World, ei: int, content: Content, j: int)
    requires
        after.is_after_kill(before, ei, content),
        0 <= ei < before.enemies@.len(),
        before.kills < u32::MAX,
        before.xp + u32::MAX <= u64::MAX,
    ensures
        ({
            let dead = before.enemies@[ei];
            let known = dead.archetype < content.enemies@.len();
            let kind = content.enemies@[dead.archetype as int];
            let g = event_generator(before.world_seed, before.event_seq);
            let chance = before.tunables.drop_chance;
            let falls = content.bases@.len() > 0 && (chance.is_nan() || (answer_word32(
                g.seed,
                Seq::empty(),
            ) >> 8) * pow2(125) < chance.value());
            let next = RngState { seed: g.seed, past: seq![Draw::Word32] };
            &&& after.kills == before.kills + 1
            &&& after.xp == before.xp + if known {
                kind.xp_value
            } else {
                0
            }
            &&& after.enemies@.len() == before.enemies@.len() - 1
            &&& 0 <= j < before.enemies@.len() && j != ei ==> after.enemies@.contains(
                before.enemies@[j],
            )
            &&& after.player == before.player
            &&& after.loadout == before.loadout
            &&& after.inventory == before.inventory
            &&& after.tunables == before.tunables
            &&& after.projectiles == before.projectiles
            &&& after.event_seq == before.event_seq + if content.bases@.len() > 0 {
                1int
            } else {
                0
            }
            &&& !falls ==> after.drops == before.drops && after.next_entity_id
                == before.next_entity_id
            &&& falls ==> {
                let new = after.drops@.last();
                &&& after.drops@ == before.drops@.push(new)
                &&& after.next_entity_id == before.next_entity_id + 1
                &&& new.id == before.next_entity_id
                &&& new.x == dead.x
                &&& new.y == dead.y
                &&& new.item.ilvl == if known {
                    kind.ilvl
                } else {
                    1
                }
                &&& new.item.rarity == rolled_rarity(next).0
                &&& new.item.upgrade_tier == 0
            }
        }),
{
    let enemies = before.enemies@;
    if 0 <= j < enemies.len() && j != ei {
        let fewer = swap_removed(enemies, ei);
        if j == enemies.len() - 1 {
            assert(fewer[ei] == enemies[j]);
        } else {
            assert(fewer[j] == enemies[j]);
        }
    }
    let g = event_generator(before.world_seed, before.event_seq);
    assert(g.past.push(Draw::Word32) =~= seq![Draw::Word32]);
    assert(before.event_rng() == g);
    if kill_drops(g, before.tunables.drop_chance).0 && content.bases@.len() > 0 {
        assert(after.drops@ =~= before.drops@.push(after.drops@.last()));
    }
}

/// A shot that meets an enemy is an event of its own, and rolled with the shot's damage and
/// crit numbers against that enemy's defenses. Whatever comes of it, it is noted. If life is
/// left, the enemy is awake, has what the shot left it, and nothing else of it or of the
/// others has changed. If none is left, the enemy is gone and counted as a kill.
pub proof fn law_shots_strike_one_enemy(
    before: World,
    after: World,
    ei: int,
    p: Projectile,
    aimed: Aimed,
    content: Content,
    j: int,
)
    requires
        after.is_after_hit(before, ei, p, aimed, content),
        0 <= ei < before.enemies@.len(),
        before.kills < u32::MAX,
        before.xp + u32::MAX <= u64::MAX,
        before.event_seq < u64::MAX,
    ensures
        ({
            let e = before.enemies@[ei];
            let weapon = Weapon {
                damage_per_shot: p.damage,
                fire_rate: Scalar { bits: 0 },
                crit_chance: p.crit_chance,
                crit_multiplier: p.crit_multiplier,
            };
            let g = event_generator(before.world_seed, before.event_seq);
            let roll = aimed.roll(g, weapon, e.combatant).0;
            let left = aimed.on(e.combatant, roll);
            let dies = !left.current_life.is_nan() && left.current_life.value() <= 0;
            &&& before.shot_kills(ei, p, aimed) <==> dies
            &&& after.last_hit == Some(aimed.result(weapon, e.combatant, roll))
            &&& after.player == before.player
            &&& after.loadout == before.loadout
            &&& after.inventory == before.inventory
            &&& after.projectiles == before.projectiles
            &&& !dies ==> {
                &&& after.enemies@.len() == before.enemies@.len()
                &&& after.enemies@[ei] == (EnemyInstance { combatant: left, awake: true, ..e })
                &&& 0 <= j < before.enemies@.len() && j != ei ==> after.enemies@[j]
                    == before.enemies@[j]
                &&& after.kills == before.kills
                &&& after.xp == before.xp
                &&& after.drops == before.drops
                &&& after.event_seq == before.event_seq + 1
            }
            &&& dies ==> {
                &&& after.enemies@.len() == before.enemies@.len() - 1
                &&& 0 <= j < before.enemies@.len() && j != ei ==> after.enemies@.contains(
                    before.enemies@[j],
                )
                &&& after.kills == before.kills + 1
                &&& after.drops@.len() <= before.drops@.len() + 1
            }
        }),
{
    let w = choose|w: World|
        #![trigger w.is_after_shot(before, ei, p, aimed)]
        w.is_after_shot(before, ei, p, aimed) && if before.shot_kills(ei, p, aimed) {
            after.is_after_kill(w, ei, content)
        } else {
            after == w
        };
    assert(before.event_rng() == event_generator(before.world_seed, before.event_seq));
    if before.shot_kills(ei, p, aimed) {
        law_kills_pay(w, after, ei, content, j);
    }
}

/// Whether every enemy with the given id has what some roll of a shot left it, and is not
/// dead.
pub open spec fn struck_once(
    enemies: Seq<EnemyInstance>,
    target: EnemyInstance,
    aimed: Aimed,
) -> bool {
    forall|m: int|
        0 <= m < enemies.len() && (#[trigger] enemies[m]).id == target.id ==> exists|roll: ShotRoll|
            enemies[m].combatant == #[trigger] aimed.on(target.combatant, roll)
}

proof fn lemma_hit_keeps_ids(
    before: World,
    after: World,
    i: int,
    p: Projectile,
    a: Aimed,
    content: Content,
)
    requires
        0 <= i < before.enemies@.len(),
        after.is_after_hit(before, i, p, a, content),
    ensures
        before.shot_kills(i, p, a) ==> after.enemies@ =~= swap_removed(before.enemies@, i),
        !before.shot_kills(i, p, a) ==> {
            &&& after.enemies@.len() == before.enemies@.len()
            &&& forall|j: int|
                0 <= j < before.enemies@.len() && j != i ==> after.enemies@[j]
                    == #[trigger] before.enemies@[j]
            &&& after.enemies@[i].id == before.enemies@[i].id
            &&& after.enemies@[i].combatant == a.on(
                before.enemies@[i].combatant,
                before.shot(i, p, a),
            )
        },
{
    let w = choose|w: World|
        #![trigger w.is_after_shot(before, i, p, a)]
        w.is_after_shot(before, i, p, a) && if before.shot_kills(i, p, a) {
            after.is_after_kill(w, i, content)
        } else {
            after == w
        };
    if before.shot_kills(i, p, a) {
        assert(swap_removed(w.enemies@, i) =~= swap_removed(before.enemies@, i));
    }
}

proof fn lemma_without_keeps_distinct(enemies: Seq<EnemyInstance>, i: int)
    requires
        distinct_ids(enemies),
        0 <= i < enemies.len(),
    ensures
        distinct_ids(swap_removed(enemies, i)),
        forall|m: int|
            0 <= m < enemies.len() - 1 ==> (#[trigger] swap_removed(enemies, i)[m]).id
                != enemies[i].id,
{
    let fewer = swap_removed(enemies, i);
    let from = |k: int| if k == i { enemies.len() - 1 } else { k };
    assert forall|m: int| 0 <= m < fewer.len() implies fewer[m] == enemies[from(m)] by {}
    assert forall|a: int, b: int| 0 <= a < b < fewer.len() implies (#[trigger] fewer[a]).id != (
    #[trigger] fewer[b]).id by {
        let (x, y) = (from(a), from(b));
        if x < y {
            assert(enemies[x].id != enemies[y].id);
        } else {
            assert(enemies[y].id != enemies[x].id);
        }
    }
    assert forall|m: int| 0 <= m < enemies.len() - 1 implies (#[trigger] fewer[m]).id
        != enemies[i].id by {
        let x = from(m);
        if x < i {
            assert(enemies[x].id != enemies[i].id);
        } else {
            assert(enemies[i].id != enemies[x].id);
        }
    }
}

/// Whoever a blast has passed, or does not reach, keeps what they have; nobody joins.
proof fn lemma_blast_leaves_the_rest(
    before: World,
    after: World,
    i: int,
    d2: Seq<Scalar>,
    aimed: Seq<Aimed>,
    r2: Scalar,
    p: Projectile,
    content: Content,
    id: u64,
    e: EnemyInstance,
)
    requires
        blasted(before, after, i, d2, aimed, r2, p, content),
        0 <= i <= d2.len(),
        d2.len() == before.enemies@.len(),
        aimed.len() == before.enemies@.len(),
        forall|m: int|
            0 <= m < before.enemies@.len() && (#[trigger] before.enemies@[m]).id == id ==> m < i
                && before.enemies@[m] == e,
    ensures
        forall|m: int|
            0 <= m < after.enemies@.len() && (#[trigger] after.enemies@[m]).id == id
                ==> after.enemies@[m] == e,
    decreases d2.len() - i,
{
    if i == d2.len() {
    } else if !within(d2[i], r2) {
        lemma_blast_leaves_the_rest(before, after, i + 1, d2, aimed, r2, p, content, id, e);
    } else {
        let mid = choose|mid: World|
            #![trigger mid.is_after_hit(before, i, p, aimed[i], content)]
            mid.is_after_hit(before, i, p, aimed[i], content) && if before.shot_kills(
                i,
                p,
                aimed[i],
            ) {
                blasted(mid, after, i, swap_removed(d2, i), swap_removed(aimed, i), r2, p, content)
            } else {
                blasted(mid, after, i + 1, d2, aimed, r2, p, content)
            };
        lemma_hit_keeps_ids(before, mid, i, p, aimed[i], content);
        if before.shot_kills(i, p, aimed[i]) {
            assert forall|m: int|
                0 <= m < mid.enemies@.len() && (#[trigger] mid.enemies@[m]).id == id implies m < i
                && mid.enemies@[m] == e by {
                let x = if m == i {
                    before.enemies@.len() - 1
                } else {
                    m
                };
                assert(mid.enemies@[m] == before.enemies@[x]);
            }
            lemma_blast_leaves_the_rest(
                mid,
                after,
                i,
                swap_removed(d2, i),
                swap_removed(aimed, i),
                r2,
                p,
                content,
                id,
                e,
            );
        } else {
            assert forall|m: int|
                0 <= m < mid.enemies@.len() && (#[trigger] mid.enemies@[m]).id == id implies m < i
                + 1 && mid.enemies@[m] == e by {
                if m == i {
                    assert(before.enemies@[i].id == id);
                } else {
                    assert(mid.enemies@[m] == before.enemies@[m]);
                }
            }
            lemma_blast_leaves_the_rest(mid, after, i + 1, d2, aimed, r2, p, content, id, e);
        }
    }
}

proof fn lemma_blast_strikes_once(
    before: World,
    after: World,
    i: int,
    d2: Seq<Scalar>,
    aimed: Seq<Aimed>,
    r2: Scalar,
    p: Projectile,
    content: Content,
    j: int,
)
    requires
        blasted(before, after, i, d2, aimed, r2, p, content),
        0 <= i <= j < d2.len(),
        d2.len() == before.enemies@.len(),
        aimed.len() == before.enemies@.len(),
        distinct_ids(before.enemies@),
        within(d2[j], r2),
    ensures
        struck_once(after.enemies@, before.enemies@[j], aimed[j]),
    decreases d2.len() - i,
{
    let target = before.enemies@[j];
    if !within(d2[i], r2) {
        lemma_blast_strikes_once(before, after, i + 1, d2, aimed, r2, p, content, j);
    } else {
        let mid = choose|mid: World|
            #![trigger mid.is_after_hit(before, i, p, aimed[i], content)]
            mid.is_after_hit(before, i, p, aimed[i], content) && if before.shot_kills(
                i,
                p,
                aimed[i],
            ) {
                blasted(mid, after, i, swap_removed(d2, i), swap_removed(aimed, i), r2, p, content)
            } else {
                blasted(mid, after, i + 1, d2, aimed, r2, p, content)
            };
        lemma_hit_keeps_ids(before, mid, i, p, aimed[i], content);
        if before.shot_kills(i, p, aimed[i]) {
            lemma_without_keeps_distinct(before.enemies@, i);
            let (fewer, rest) = (swap_removed(d2, i), swap_removed(aimed, i));
            if j == i {
                assert forall|m: int| 0 <= m < mid.enemies@.len() implies (
                #[trigger] mid.enemies@[m]).id != target.id by {
                    assert(mid.enemies@[m] == swap_removed(before.enemies@, i)[m]);
                }
                let other: u64 = if target.id == 0 {
                    1
                } else {
                    0
                };
                let gone = EnemyInstance { id: other, ..target };
                lemma_blast_leaves_the_rest(
                    mid,
                    after,
                    i,
                    fewer,
                    rest,
                    r2,
                    p,
                    content,
                    target.id,
                    gone,
                );
                assert forall|m: int|
                    0 <= m < after.enemies@.len() && (#[trigger] after.enemies@[m]).id
                        == target.id implies exists|roll: ShotRoll|
                    after.enemies@[m].combatant == #[trigger] aimed[j].on(
                        target.combatant,
                        roll,
                    ) by {
                    assert(after.enemies@[m] == gone);
                }
            } else {
                let k = if j == d2.len() - 1 {
                    i
                } else {
                    j
                };
                assert(mid.enemies@[k] == target);
                assert(fewer[k] == d2[j]);
                assert(rest[k] == aimed[j]);
                lemma_blast_strikes_once(mid, after, i, fewer, rest, r2, p, content, k);
            }
        } else if j == i {
            let struck = mid.enemies@[i];
            assert forall|m: int|
                0 <= m < mid.enemies@.len() && (#[trigger] mid.enemies@[m]).id
                    == target.id implies m < i + 1 && mid.enemies@[m] == struck by {
                if m != i {
                    assert(mid.enemies@[m] == before.enemies@[m]);
                    if m < i {
                        assert(before.enemies@[m].id != before.enemies@[i].id);
                    } else {
                        assert(before.enemies@[i].id != before.enemies@[m].id);
                    }
                }
            }
            lemma_blast_leaves_the_rest(
                mid,
                after,
                i + 1,
                d2,
                aimed,
                r2,
                p,
                content,
                target.id,
                struck,
            );
            assert forall|m: int|
                0 <= m < after.enemies@.len() && (#[trigger] after.enemies@[m]).id
                    == target.id implies exists|roll: ShotRoll|
                after.enemies@[m].combatant == #[trigger] aimed[j].on(target.combatant, roll) by {
                assert(after.enemies@[m].combatant == aimed[j].on(
                    target.combatant,
                    before.shot(i, p, aimed[i]),
                ));
            }
        } else {
            assert(mid.enemies@[j] == target);
            assert forall|a: int, b: int| 0 <= a < b < mid.enemies@.len() implies (
            #[trigger] mid.enemies@[a]).id != (#[trigger] mid.enemies@[b]).id by {
                assert(mid.enemies@[a].id == before.enemies@[a].id);
                assert(mid.enemies@[b].id == before.enemies@[b].id);
                assert(before.enemies@[a].id != before.enemies@[b].id);
            }
            lemma_blast_strikes_once(mid, after, i + 1, d2, aimed, r2, p, content, j);
        }
    }
}

/// A blast strikes everyone within its radius, edge included, once and with the shot at them:
/// whoever of them is still there has what some roll of that shot left them. It is shown by
/// one more marker, at its place and of its radius.
pub proof fn law_blasts_strike_once(
    before: World,
    after: World,
    x: Scalar,
    y: Scalar,
    p: Projectile,
    d2: Seq<Scalar>,
    r2: Scalar,
    aimed: Seq<Aimed>,
    content: Content,
    j: int,
)
    requires
        before.wf(),
        after.is_after_blast(before, x, y, p, d2, r2, aimed, content),
        d2.len() == before.enemies@.len(),
        aimed.len() == before.enemies@.len(),
        0 <= j < d2.len(),
        !d2[j].is_nan(),
        !r2.is_nan(),
        d2[j].value() <= r2.value(),
    ensures
        struck_once(after.enemies@, before.enemies@[j], aimed[j]),
        after.explosions@.len() > 0,
        after.explosions@.last().x == x,
        after.explosions@.last().y == y,
        after.explosions@.last().radius == p.aoe_radius,
{
    let w = choose|w: World|
        #![trigger blasted(before, w, 0, d2, aimed, r2, p, content)]
        blasted(before, w, 0, d2, aimed, r2, p, content) && after.is_marked(w, x, y, p.aoe_radius);
    lemma_blast_strikes_once(before, w, 0, d2, aimed, r2, p, content, j);
}

} // verus!
