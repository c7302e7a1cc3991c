//! Events: what makes every one of them reproducible.

use vstd::arithmetic::div_mod::{
    lemma_mod_multiples_vanish, lemma_mul_mod_noop_left, lemma_small_mod,
};
use vstd::prelude::*;

use crate::game::entity::Content;
use crate::game::loot::{kill_drops, worth_of};
use crate::game::world::{event_seed, World};
use crate::rules::rarity::rolled_rarity;
use crate::rules::roll_laws::{law_rolls_are_deterministic, same_item};

verus! {

/// Multiplying by a number that has an inverse can be undone.
proof fn lemma_multiply_back(a: u64, k: u64, inverse: int, quotient: int)
    requires
        k * inverse == 1 + 0x1_0000_0000_0000_0000 * quotient,
    ensures
        (a.wrapping_mul(k) * inverse) % 0x1_0000_0000_0000_0000 == a,
{
    let m: int = 0x1_0000_0000_0000_0000;
    lemma_mul_mod_noop_left(a * k, inverse, m);
    assert((a * k) * inverse == m * (a * quotient) + a) by (nonlinear_arith)
        requires
            k * inverse == 1 + m * quotient,
    ;
    lemma_mod_multiples_vanish(a * quotient, a as int, m);
    lemma_small_mod(a as nat, m as nat);
}

/// Two numbers that agree after multiplication by a number that has an inverse agree.
proof fn lemma_multiply_injective(a: u64, b: u64, k: u64, inverse: int, quotient: int)
    requires
        k * inverse == 1 + 0x1_0000_0000_0000_0000 * quotient,
        a.wrapping_mul(k) == b.wrapping_mul(k),
    ensures
        a == b,
{
    lemma_multiply_back(a, k, inverse, quotient);
    lemma_multiply_back(b, k, inverse, quotient);
}

/// Distinct events of a world have distinct seeds: no two of them ever share a generator.
pub proof fn law_events_have_their_own_seeds(world_seed: u64, i: u64, j: u64)
    requires
        event_seed(world_seed, i) == event_seed(world_seed, j),
    ensures
        i == j,
{
    let pi = i.wrapping_mul(0x9E37_79B9_7F4A_7C15u64);
    let pj = j.wrapping_mul(0x9E37_79B9_7F4A_7C15u64);
    let ai = world_seed ^ pi;
    let aj = world_seed ^ pj;
    let xi = ai ^ (ai >> 30u64);
    let xj = aj ^ (aj >> 30u64);
    let bi = xi.wrapping_mul(0xBF58_476D_1CE4_E5B9u64);
    let bj = xj.wrapping_mul(0xBF58_476D_1CE4_E5B9u64);
    let yi = bi ^ (bi >> 27u64);
    let yj = bj ^ (bj >> 27u64);
    let ci = yi.wrapping_mul(0x94D0_49BB_1331_11EBu64);
    let cj = yj.wrapping_mul(0x94D0_49BB_1331_11EBu64);
    assert(ci ^ (ci >> 31u64) == cj ^ (cj >> 31u64) ==> ci == cj) by (bit_vector);
    lemma_multiply_injective(
        yi,
        yj,
        0x94D0_49BB_1331_11EB,
        0x3196_42b2_d24d_8ec3,
        0x1cd3_36ed_a85f_1453,
    );
    assert(bi ^ (bi >> 27u64) == bj ^ (bj >> 27u64) ==> bi == bj) by (bit_vector);
    lemma_multiply_injective(
        xi,
        xj,
        0xBF58_476D_1CE4_E5B9,
        0x96de_1b17_3f11_9089,
        0x70c3_bca7_8f27_f46c,
    );
    assert(ai ^ (ai >> 30u64) == aj ^ (aj >> 30u64) ==> ai == aj) by (bit_vector);
    assert(world_seed ^ pi == world_seed ^ pj ==> pi == pj) by (bit_vector);
    lemma_multiply_injective(
        i,
        j,
        0x9E37_79B9_7F4A_7C15,
        0xf1de_83e1_9937_733d,
        0x957b_bf35_006e_d677,
    );
}

/// Every drop is reproducible from the world's seed and the event: two worlds with the same
/// seed that are at the same event roll the same kill. If one drops something, so does the
/// other, and what they drop reads the same.
pub proof fn law_kills_are_reproducible(
    a: World,
    b: World,
    a1: World,
    b1: World,
    i: int,
    j: int,
    content: Content,
)
    requires
        a.world_seed == b.world_seed,
        a.event_seq == b.event_seq,
        a.tunables.drop_chance == b.tunables.drop_chance,
        0 <= i < a.enemies@.len(),
        0 <= j < b.enemies@.len(),
        a.enemies@[i].archetype == b.enemies@[j].archetype,
        a1.is_after_kill(a, i, content),
        b1.is_after_kill(b, j, content),
        a1.drops@.len() > a.drops@.len(),
    ensures
        b1.drops@.len() > b.drops@.len(),
        same_item(a1.drops@.last().item, b1.drops@.last().item),
{
    let ilvl = worth_of(content, a.enemies@[i].archetype as int).1;
    let g = kill_drops(a.event_rng(), a.tunables.drop_chance).1;
    let (rarity, g1) = rolled_rarity(g);
    law_rolls_are_deterministic(
        a1.drops@.last().item,
        b1.drops@.last().item,
        g1,
        content.bases@,
        content.affixes@,
        ilvl,
        rarity,
    );
}

/// Distinct worlds have distinct seeds for the same event.
pub proof fn law_worlds_have_their_own_seeds(a: u64, b: u64, event: u64)
    requires
        event_seed(a, event) == event_seed(b, event),
    ensures
        a == b,
{
    let p = event.wrapping_mul(0x9E37_79B9_7F4A_7C15u64);
    let ai = a ^ p;
    let aj = b ^ p;
    let xi = ai ^ (ai >> 30u64);
    let xj = aj ^ (aj >> 30u64);
    let bi = xi.wrapping_mul(0xBF58_476D_1CE4_E5B9u64);
    let bj = xj.wrapping_mul(0xBF58_476D_1CE4_E5B9u64);
    let yi = bi ^ (bi >> 27u64);
    let yj = bj ^ (bj >> 27u64);
    let ci = yi.wrapping_mul(0x94D0_49BB_1331_11EBu64);
    let cj = yj.wrapping_mul(0x94D0_49BB_1331_11EBu64);
    assert(ci ^ (ci >> 31u64) == cj ^ (cj >> 31u64) ==> ci == cj) by (bit_vector);
    lemma_multiply_injective(
        yi,
        yj,
        0x94D0_49BB_1331_11EB,
        0x3196_42b2_d24d_8ec3,
        0x1cd3_36ed_a85f_1453,
    );
    assert(bi ^ (bi >> 27u64) == bj ^ (bj >> 27u64) ==> bi == bj) by (bit_vector);
    lemma_multiply_injective(
        xi,
        xj,
        0xBF58_476D_1CE4_E5B9,
        0x96de_1b17_3f11_9089,
        0x70c3_bca7_8f27_f46c,
    );
    assert(ai ^ (ai >> 30u64) == aj ^ (aj >> 30u64) ==> ai == aj) by (bit_vector);
    assert(a ^ p == b ^ p ==> a == b) by (bit_vector);
}

} // verus!
