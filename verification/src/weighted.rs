//! Choosing among weighted entries: an entry is chosen by a number below the total
//! weight, and every entry owns as many of those numbers as it weighs.

use vstd::prelude::*;

verus! {

/// The weight of the first `n` entries together.
pub open spec fn weight_of_first(weights: Seq<u32>, n: int) -> int
    decreases n,
{
    if n <= 0 {
        0
    } else {
        weight_of_first(weights, n - 1) + weights[n - 1]
    }
}

/// The weight of all entries together.
pub open spec fn weight_of_all(weights: Seq<u32>) -> int {
    weight_of_first(weights, weights.len() as int)
}

/// Whether the `i`-th entry owns the number `pick`.
pub open spec fn owns(weights: Seq<u32>, i: int, pick: int) -> bool {
    0 <= i < weights.len() && weight_of_first(weights, i) <= pick < weight_of_first(weights, i + 1)
}

/// The entry that owns the number `pick`.
pub open spec fn owner(weights: Seq<u32>, pick: int) -> int {
    choose|i: int| owns(weights, i, pick)
}

/// More entries never weigh less, and `n` of them weigh at most `n` times the most that
/// one can.
pub proof fn lemma_weight_grows(weights: Seq<u32>, m: int, n: int)
    requires
        0 <= m <= n <= weights.len(),
    ensures
        0 <= weight_of_first(weights, m) <= weight_of_first(weights, n),
        weight_of_first(weights, n) <= weight_of_first(weights, m) + (n - m) * u32::MAX,
    decreases n,
{
    if m < n {
        lemma_weight_grows(weights, m, n - 1);
    } else if 0 < n {
        lemma_weight_grows(weights, m - 1, n - 1);
    }
}

/// As many entries as `u32` counts weigh no more than `u64` holds.
pub proof fn lemma_weight_fits(weights: Seq<u32>)
    requires
        weights.len() <= u32::MAX,
    ensures
        0 <= weight_of_all(weights) <= u64::MAX,
{
    let n = weights.len() as int;
    lemma_weight_grows(weights, 0, n);
    assert(n * u32::MAX <= u32::MAX * u32::MAX) by (nonlinear_arith)
        requires
            n <= u32::MAX,
    ;
}

/// How much the first entries weigh depends on them alone.
pub proof fn lemma_weight_of_prefix(a: Seq<u32>, b: Seq<u32>, n: int)
    requires
        0 <= n <= a.len(),
        n <= b.len(),
        forall|i: int| 0 <= i < n ==> a[i] == b[i],
    ensures
        weight_of_first(a, n) == weight_of_first(b, n),
    decreases n,
{
    if n > 0 {
        lemma_weight_of_prefix(a, b, n - 1);
    }
}

/// One more entry adds its weight.
pub proof fn lemma_weight_of_push(weights: Seq<u32>, weight: u32)
    ensures
        weight_of_all(weights.push(weight)) == weight_of_all(weights) + weight,
{
    lemma_weight_of_prefix(weights, weights.push(weight), weights.len() as int);
}

/// No number has two owners, and an owner weighs something.
pub proof fn lemma_one_owner(weights: Seq<u32>, i: int, j: int, pick: int)
    requires
        owns(weights, i, pick),
        owns(weights, j, pick),
    ensures
        i == j,
        weights[i] > 0,
        owner(weights, pick) == i,
{
    if i < j {
        lemma_weight_grows(weights, i + 1, j);
    } else if j < i {
        lemma_weight_grows(weights, j + 1, i);
    }
    let k = owner(weights, pick);
    assert(owns(weights, k, pick));
    if k < i {
        lemma_weight_grows(weights, k + 1, i);
    } else if i < k {
        lemma_weight_grows(weights, i + 1, k);
    }
}

/// Every number below the total weight has an owner.
pub proof fn law_every_number_is_owned(weights: Seq<u32>, pick: int)
    requires
        0 <= pick < weight_of_all(weights),
    ensures
        owns(weights, owner(weights, pick), pick),
        weights[owner(weights, pick)] > 0,
{
    lemma_owner_below(weights, pick, weights.len() as int);
    let i = choose|i: int| owns(weights, i, pick);
    lemma_one_owner(weights, i, i, pick);
}

proof fn lemma_owner_below(weights: Seq<u32>, pick: int, n: int)
    requires
        0 <= n <= weights.len(),
        0 <= pick < weight_of_first(weights, n),
    ensures
        exists|i: int| owns(weights, i, pick),
    decreases n,
{
    if n > 0 {
        if pick < weight_of_first(weights, n - 1) {
            lemma_owner_below(weights, pick, n - 1);
        } else {
            assert(owns(weights, n - 1, pick));
        }
    }
}

/// Adds the weights up.
pub(crate) fn total_weight(weights: &Vec<u32>) -> (total: u64)
    requires
        weight_of_all(weights@) <= u64::MAX,
    ensures
        total == weight_of_all(weights@),
{
    let mut total: u64 = 0;
    for i in 0..weights.len()
        invariant
            weight_of_all(weights@) <= u64::MAX,
            total == weight_of_first(weights@, i as int),
    {
        proof {
            lemma_weight_grows(weights@, i + 1, weights@.len() as int);
        }
        total = total + weights[i] as u64;
    }
    total
}

/// Finds the entry that owns the number `pick`.
pub(crate) fn entry_of(weights: &Vec<u32>, pick: u64) -> (i: usize)
    requires
        pick < weight_of_all(weights@),
    ensures
        owns(weights@, i as int, pick as int),
        i == owner(weights@, pick as int),
{
    let mut left: u64 = pick;
    let mut i: usize = 0;
    while i < weights.len()
        invariant
            0 <= i <= weights@.len(),
            left == pick - weight_of_first(weights@, i as int),
            pick < weight_of_all(weights@),
        decreases weights@.len() - i,
    {
        if left < weights[i] as u64 {
            proof {
                lemma_one_owner(weights@, i as int, i as int, pick as int);
            }
            return i;
        }
        left = left - weights[i] as u64;
        i = i + 1;
    }
    0
}

/// What the entries before the `i`-th weigh, counted entry by entry.
pub open spec fn weight_before(weights: Seq<u32>, i: int) -> int
    decreases i,
{
    if i <= 0 {
        0
    } else {
        weights[i - 1] + weight_before(weights, i - 1)
    }
}

/// The entry that a number picks is the one that owns it: the entries before it weigh no
/// more than the number, and with its own weight they weigh more. So an entry is picked by
/// exactly as many of the numbers below the total as it weighs.
pub proof fn law_entries_are_picked_by_weight(weights: Seq<u32>, pick: int, i: int)
    requires
        0 <= pick < weight_before(weights, weights.len() as int),
    ensures
        0 <= owner(weights, pick) < weights.len(),
        0 <= i < weights.len() ==> (owner(weights, pick) == i <==> weight_before(weights, i) <= pick
            < weight_before(weights, i) + weights[i]),
{
    lemma_weight_before(weights, weights.len() as int);
    law_every_number_is_owned(weights, pick);
    let k = owner(weights, pick);
    lemma_weight_before(weights, k);
    if 0 <= i < weights.len() {
        lemma_weight_before(weights, i);
        if owns(weights, i, pick) {
            lemma_one_owner(weights, i, k, pick);
        }
    }
}

pub proof fn lemma_weight_before(weights: Seq<u32>, i: int)
    ensures
        weight_before(weights, i) == weight_of_first(weights, i),
    decreases i,
{
    if i > 0 {
        lemma_weight_before(weights, i - 1);
    }
}

} // verus!
