//! Who is close enough: distances compared with a radius.

use vstd::prelude::*;

use crate::game::world::World;
use crate::scalar::Scalar;

verus! {

/// Whether a distance is within a radius (both squared).
pub open spec fn within(d2: Scalar, r2: Scalar) -> bool {
    !d2.is_nan() && !r2.is_nan() && d2.value() <= r2.value()
}

/// How many of the first `n` distances are within the radius.
pub open spec fn count_of_within(d2: Seq<Scalar>, r2: Scalar, n: int) -> int
    decreases n,
{
    if n <= 0 {
        0
    } else if within(d2[n - 1], r2) {
        count_of_within(d2, r2, n - 1) + 1
    } else {
        count_of_within(d2, r2, n - 1)
    }
}

/// The index of the first distance that is within the radius, if any.
pub fn first_within(d2: &Vec<Scalar>, r2: &Scalar) -> (found: Option<usize>)
    ensures
        match found {
            None => forall|i: int| 0 <= i < d2@.len() ==> !within(#[trigger] d2@[i], *r2),
            Some(k) => k < d2@.len() && within(d2@[k as int], *r2) && forall|i: int|
                0 <= i < k ==> !within(#[trigger] d2@[i], *r2),
        },
{
    for k in 0..d2.len()
        invariant
            forall|i: int| 0 <= i < k ==> !within(#[trigger] d2@[i], *r2),
    {
        if d2[k].le(r2) {
            return Some(k);
        }
    }
    None
}

/// How many distances are within the radius.
pub fn count_within(d2: &Vec<Scalar>, r2: &Scalar) -> (n: usize)
    ensures
        n == count_of_within(d2@, *r2, d2@.len() as int),
{
    let mut n: usize = 0;
    for k in 0..d2.len()
        invariant
            n == count_of_within(d2@, *r2, k as int),
            n <= k,
    {
        if d2[k].le(r2) {
            n = n + 1;
        }
    }
    n
}

impl World {
    /// How many enemies drain the player's life, given how far away each is: those in
    /// contact range, or none in god mode.
    pub fn touching(&self, d2: &Vec<Scalar>, r2: &Scalar) -> (n: usize)
        ensures
            n == (if self.tunables.god_mode {
                0
            } else {
                count_of_within(d2@, *r2, d2@.len() as int)
            }),
    {
        if self.tunables.god_mode {
            return 0;
        }
        count_within(d2, r2)
    }
}

/// Who is close enough: whoever is no farther away than the radius, edge included. Their
/// number is how many of the distances are such.
pub proof fn law_reach_includes_its_edge(d2: Seq<Scalar>, r2: Scalar, n: int)
    requires
        0 <= n <= d2.len(),
        !r2.is_nan(),
    ensures
        count_of_within(d2, r2, n) == d2.take(n).filter(
            |d: Scalar| !d.is_nan() && d.value() <= r2.value(),
        ).len(),
    decreases n,
{
    reveal(Seq::filter);
    if n > 0 {
        law_reach_includes_its_edge(d2, r2, n - 1);
        assert(d2.take(n).drop_last() =~= d2.take(n - 1));
    }
}

} // verus!
