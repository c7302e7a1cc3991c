//! The drop curve: how rare a drop is.

use vstd::prelude::*;

use crate::rng::{Draw, RngState, SeededRng};
use crate::rules::item::Rarity;

verus! {

/// The rarity that a number below 1000 stands for. Out of 1000, 5 are legendary, 25 epic,
/// 90 rare, 280 common and 600 basic.
pub open spec fn rarity_for(n: u32) -> Rarity {
    if n < 5 {
        Rarity::Legendary
    } else if n < 30 {
        Rarity::Epic
    } else if n < 120 {
        Rarity::Rare
    } else if n < 400 {
        Rarity::Common
    } else {
        Rarity::Basic
    }
}

/// The rarity of a drop, and the generator after it was rolled.
pub open spec fn rolled_rarity(g: RngState) -> (Rarity, RngState) {
    (rarity_for(g.range32(0, 999)), g.after(Draw::Range32 { lo: 0, hi: 999 }))
}

/// The rarity that a number below 1000 stands for.
pub fn rarity_of(n: u32) -> (r: Rarity)
    ensures
        r == rarity_for(n),
{
    if n < 5 {
        Rarity::Legendary
    } else if n < 30 {
        Rarity::Epic
    } else if n < 120 {
        Rarity::Rare
    } else if n < 400 {
        Rarity::Common
    } else {
        Rarity::Basic
    }
}

/// Weighted rarity roll along the drop curve (per 1000): Legendary 5, Epic 25, Rare 90,
/// Common 280, Basic 600.
pub fn roll_rarity(rng: &mut SeededRng) -> (r: Rarity)
    ensures
        (r, final(rng)@) == rolled_rarity(old(rng)@),
{
    rarity_of(rng.range_u32(0, 999))
}

/// How many of the first `n` numbers stand for a rarity.
pub open spec fn share(rarity: Rarity, n: int) -> int
    decreases n,
{
    if n <= 0 {
        0
    } else if rarity_for((n - 1) as u32) == rarity {
        share(rarity, n - 1) + 1
    } else {
        share(rarity, n - 1)
    }
}

proof fn lemma_share(rarity: Rarity, lo: int, hi: int, n: int)
    requires
        0 <= lo <= hi <= 1000,
        0 <= n <= 1000,
        forall|k: u32| k < 1000 ==> (#[trigger] rarity_for(k) == rarity <==> lo <= k < hi),
    ensures
        share(rarity, n) == (if n <= lo {
            0
        } else if n <= hi {
            n - lo
        } else {
            hi - lo
        }),
    decreases n,
{
    if n > 0 {
        lemma_share(rarity, lo, hi, n - 1);
        let k = (n - 1) as u32;
        assert(rarity_for(k) == rarity <==> lo <= k < hi);
    }
}

/// The drop curve, out of 1000: 600 basic, 280 common, 90 rare, 25 epic and 5 legendary.
pub proof fn law_drop_curve()
    ensures
        share(Rarity::Basic, 1000) == 600,
        share(Rarity::Common, 1000) == 280,
        share(Rarity::Rare, 1000) == 90,
        share(Rarity::Epic, 1000) == 25,
        share(Rarity::Legendary, 1000) == 5,
{
    lemma_share(Rarity::Basic, 400, 1000, 1000);
    lemma_share(Rarity::Common, 120, 400, 1000);
    lemma_share(Rarity::Rare, 30, 120, 1000);
    lemma_share(Rarity::Epic, 5, 30, 1000);
    lemma_share(Rarity::Legendary, 0, 5, 1000);
}

/// The lower the number that is drawn, the rarer the drop: below 5 of 1000 it is legendary,
/// below 30 at least epic, below 120 at least rare and below 400 at least common.
pub proof fn law_rarity_follows_the_draw(g: RngState)
    ensures
        ({
            let n = g.range32(0, 999);
            let (rarity, after) = rolled_rarity(g);
            &&& n < 5 <==> rarity == Rarity::Legendary
            &&& n < 30 <==> rarity == Rarity::Legendary || rarity == Rarity::Epic
            &&& n < 120 <==> rarity != Rarity::Basic && rarity != Rarity::Common
            &&& n < 400 <==> rarity != Rarity::Basic
            &&& after.seed == g.seed
            &&& after.past == g.past.push(Draw::Range32 { lo: 0, hi: 999 })
        }),
{
}

} // verus!
