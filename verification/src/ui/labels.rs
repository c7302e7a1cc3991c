//! Which enemies carry a label: the nearest few, drawn so that lower ids come on top.

use vstd::prelude::*;
use vstd::set_lib::{lemma_int_range, lemma_len_subset, set_int_range};

use crate::game::entity::EnemyInstance;
use crate::scalar::Scalar;

verus! {

/// Only the nearest few are labelled, to keep it readable.
pub const MAX_LABELS: usize = 5;

/// Where a number stands in the total order of all bit patterns: negative ones before
/// positive ones, what is no number at the ends.
pub open spec fn order_of(s: Scalar) -> int {
    if s.is_negative() {
        -s.body() - 1
    } else {
        s.body()
    }
}

fn order(s: &Scalar) -> (k: i64)
    ensures
        k == order_of(*s),
{
    if s.bits >= 0x8000_0000 {
        -((s.bits - 0x8000_0000) as i64) - 1
    } else {
        s.bits as i64
    }
}

/// Whether one enemy comes before another: nearer, or as near and earlier in the list.
pub open spec fn nearer(d2: Seq<Scalar>, i: int, j: int) -> bool {
    order_of(d2[i]) < order_of(d2[j]) || (order_of(d2[i]) == order_of(d2[j]) && i < j)
}

/// How many of the first `n` come before the `i`-th.
pub open spec fn rank(d2: Seq<Scalar>, i: int, n: int) -> int
    decreases n,
{
    if n <= 0 {
        0
    } else if nearer(d2, n - 1, i) {
        rank(d2, i, n - 1) + 1
    } else {
        rank(d2, i, n - 1)
    }
}

/// Whether an enemy is one of the nearest few.
pub open spec fn is_labelled(d2: Seq<Scalar>, i: int) -> bool {
    0 <= i < d2.len() && rank(d2, i, d2.len() as int) < MAX_LABELS
}

/// Whether higher ids come first.
pub open spec fn ids_descend(picked: Seq<usize>, enemies: Seq<EnemyInstance>) -> bool {
    forall|a: int, b: int|
        0 <= a < b < picked.len() ==> enemies[(#[trigger] picked[a]) as int].id > enemies[(
        #[trigger] picked[b]) as int].id
}

fn rank_of(d2: &Vec<Scalar>, i: usize) -> (r: usize)
    requires
        i < d2.len(),
    ensures
        r == rank(d2@, i as int, d2.len() as int),
{
    let mine: i64 = order(&d2[i]);
    let mut r: usize = 0;
    for k in 0..d2.len()
        invariant
            i < d2.len(),
            mine == order_of(d2@[i as int]),
            r == rank(d2@, i as int, k as int),
            r <= k,
    {
        let other: i64 = order(&d2[k]);
        if other < mine || (other == mine && k < i) {
            r = r + 1;
        }
    }
    r
}

/// Puts an enemy in its place among those that are labelled.
fn insert_by_id(picked: &mut Vec<usize>, enemies: &Vec<EnemyInstance>, i: usize)
    requires
        i < enemies.len(),
        forall|a: int| 0 <= a < old(picked).len() ==> (#[trigger] old(picked)@[a]) < i,
        forall|a: int, b: int|
            0 <= a < b < enemies.len() ==> (#[trigger] enemies@[a]).id != (#[trigger] enemies@[b]).id,
        ids_descend(old(picked)@, enemies@),
    ensures
        ids_descend(final(picked)@, enemies@),
        forall|k: usize| final(picked)@.contains(k) <==> old(picked)@.contains(k) || k == i,
        forall|a: int| 0 <= a < final(picked).len() ==> (#[trigger] final(picked)@[a]) <= i,
{
    let ghost start = picked@;
    let mut p: usize = 0;
    while p < picked.len() && enemies[picked[p]].id > enemies[i].id
        invariant
            i < enemies.len(),
            p <= picked.len(),
            picked@ == start,
            forall|a: int| 0 <= a < start.len() ==> (#[trigger] start[a]) < i,
            forall|a: int|
                0 <= a < p ==> enemies@[(#[trigger] start[a]) as int].id > enemies@[i as int].id,
        decreases picked.len() - p,
    {
        p = p + 1;
    }
    picked.insert(p, i);
    proof {
        let new = picked@;
        if p < start.len() {
            assert(enemies@[start[p as int] as int].id < enemies@[i as int].id);
        }
        assert forall|a: int, b: int| 0 <= a < b < new.len() implies enemies@[(
        #[trigger] new[a]) as int].id > enemies@[(#[trigger] new[b]) as int].id by {
            let a0 = if a < p {
                a
            } else {
                a - 1
            };
            let b0 = if b < p {
                b
            } else {
                b - 1
            };
            if a != p {
                assert(new[a] == start[a0]);
            }
            if b != p {
                assert(new[b] == start[b0]);
            }
            if a == p && p < b0 {
                assert(enemies@[start[p as int] as int].id > enemies@[start[b0] as int].id);
            }
        }
        assert forall|k: usize| new.contains(k) <==> start.contains(k) || k == i by {
            if new.contains(k) {
                let a = choose|a: int| 0 <= a < new.len() && new[a] == k;
                if a < p {
                    assert(start[a] == k);
                } else if a > p {
                    assert(start[a - 1] == k);
                }
            }
            if start.contains(k) {
                let a = choose|a: int| 0 <= a < start.len() && start[a] == k;
                assert(new[if a < p { a } else { a + 1 }] == k);
            }
            assert(new[p as int] == i);
        }
    }
}

/// The enemies that are labelled, in the order in which they are drawn: the lowest id last,
/// on top of the others. `d2` are their squared distances from the player.
pub fn ranked(enemies: &Vec<EnemyInstance>, d2: &Vec<Scalar>) -> (picked: Vec<usize>)
    requires
        d2.len() == enemies.len(),
        forall|a: int, b: int|
            0 <= a < b < enemies.len() ==> (#[trigger] enemies@[a]).id != (#[trigger] enemies@[b]).id,
    ensures
        forall|i: usize| picked@.contains(i) <==> is_labelled(d2@, i as int),
        ids_descend(picked@, enemies@),
        picked.len() <= MAX_LABELS,
{
    let mut picked: Vec<usize> = Vec::new();
    for i in 0..enemies.len()
        invariant
            d2.len() == enemies.len(),
            forall|a: int, b: int|
                0 <= a < b < enemies.len() ==> (#[trigger] enemies@[a]).id != (
                #[trigger] enemies@[b]).id,
            forall|k: usize| picked@.contains(k) <==> k < i && is_labelled(d2@, k as int),
            forall|a: int| 0 <= a < picked.len() ==> (#[trigger] picked@[a]) < i,
            ids_descend(picked@, enemies@),
    {
        if rank_of(d2, i) < MAX_LABELS {
            insert_by_id(&mut picked, enemies, i);
        }
    }
    proof {
        assert forall|a: int, b: int| 0 <= a < b < picked.len() implies picked@[a] != picked@[b] by {
            assert(enemies@[picked@[a] as int].id > enemies@[picked@[b] as int].id);
        }
        assert forall|a: int| 0 <= a < picked.len() implies is_labelled(
            d2@,
            (#[trigger] picked@[a]) as int,
        ) by {
            assert(picked@.contains(picked@[a]));
        }
        lemma_few_labels(picked@, d2@);
    }
    picked
}

/// Who comes first has the lower rank.
proof fn lemma_rank_order(d2: Seq<Scalar>, i: int, j: int, n: int)
    requires
        0 <= i < d2.len(),
        0 <= j < d2.len(),
        nearer(d2, i, j),
    ensures
        rank(d2, i, n) <= rank(d2, j, n),
        i < n ==> rank(d2, i, n) < rank(d2, j, n),
    decreases n,
{
    if n > 0 {
        lemma_rank_order(d2, i, j, n - 1);
    }
}

proof fn lemma_rank_range(d2: Seq<Scalar>, i: int, n: int)
    ensures
        0 <= rank(d2, i, n),
    decreases n,
{
    if n > 0 {
        lemma_rank_range(d2, i, n - 1);
    }
}

/// No more enemies than there are labels have a rank that is low enough.
proof fn lemma_few_labels(picked: Seq<usize>, d2: Seq<Scalar>)
    requires
        forall|a: int, b: int| 0 <= a < b < picked.len() ==> picked[a] != picked[b],
        forall|a: int| 0 <= a < picked.len() ==> is_labelled(d2, (#[trigger] picked[a]) as int),
    ensures
        picked.len() <= MAX_LABELS,
{
    let n = d2.len() as int;
    let ranks = Seq::new(picked.len(), |a: int| rank(d2, picked[a] as int, n));
    assert forall|a: int, b: int| 0 <= a < ranks.len() && 0 <= b < ranks.len() && a != b implies ranks[a]
        != ranks[b] by {
        assert(is_labelled(d2, picked[a] as int));
        assert(is_labelled(d2, picked[b] as int));
        if nearer(d2, picked[a] as int, picked[b] as int) {
            lemma_rank_order(d2, picked[a] as int, picked[b] as int, n);
        } else {
            assert(nearer(d2, picked[b] as int, picked[a] as int));
            lemma_rank_order(d2, picked[b] as int, picked[a] as int, n);
        }
    }
    assert(ranks.no_duplicates());
    ranks.unique_seq_to_set();
    lemma_int_range(0, MAX_LABELS as int);
    assert forall|r: int| ranks.to_set().contains(r) implies set_int_range(
        0,
        MAX_LABELS as int,
    ).contains(r) by {
        let a = choose|a: int| 0 <= a < ranks.len() && ranks[a] == r;
        assert(is_labelled(d2, picked[a] as int));
        lemma_rank_range(d2, picked[a] as int, n);
    }
    lemma_len_subset(ranks.to_set(), set_int_range(0, MAX_LABELS as int));
}

/// Who is labelled: whoever has fewer than five before them. Of two enemies the nearer one
/// comes first, and of two at the same distance the earlier one in the list.
pub proof fn law_the_nearest_five_are_labelled(d2: Seq<Scalar>, i: int)
    requires
        0 <= i < d2.len(),
        forall|j: int|
            0 <= j < d2.len() ==> !(#[trigger] d2[j]).is_nan() && !d2[j].is_negative(),
    ensures
        is_labelled(d2, i) <==> Set::new(
            |j: int|
                0 <= j < d2.len() && (d2[j].value() < d2[i].value() || (d2[j].value()
                    == d2[i].value() && j < i)),
        ).len() < 5,
{
    let n = d2.len() as int;
    let closer = Set::new(
        |j: int|
            0 <= j < d2.len() && (d2[j].value() < d2[i].value() || (d2[j].value()
                == d2[i].value() && j < i)),
    );
    lemma_rank_is_a_count(d2, i, n);
    assert forall|j: int| closer.contains(j) <==> #[trigger] closer_than(d2, i, n).contains(j) by {
        if 0 <= j < n {
            crate::scalar::lemma_magnitude_order(d2[i].body(), d2[j].body());
            crate::scalar::lemma_magnitude_order(d2[j].body(), d2[i].body());
        }
    }
    assert(closer =~= closer_than(d2, i, n));
}

/// Those of the first `n` that come before the `i`-th.
spec fn closer_than(d2: Seq<Scalar>, i: int, n: int) -> Set<int> {
    Set::new(|j: int| 0 <= j < n && nearer(d2, j, i))
}

proof fn lemma_rank_is_a_count(d2: Seq<Scalar>, i: int, n: int)
    requires
        0 <= n,
    ensures
        closer_than(d2, i, n).finite(),
        closer_than(d2, i, n).len() == rank(d2, i, n),
    decreases n,
{
    if n > 0 {
        lemma_rank_is_a_count(d2, i, n - 1);
        let before = closer_than(d2, i, n - 1);
        if nearer(d2, n - 1, i) {
            assert(closer_than(d2, i, n) =~= before.insert(n - 1));
        } else {
            assert(closer_than(d2, i, n) =~= before);
        }
    } else {
        assert(closer_than(d2, i, n) =~= Set::empty());
    }
}

} // verus!
