//! Three-tier stat aggregation: `(base + flat) × (1 + increased) × ∏(1 + more_i)`.
//! Which modifier goes into which of the three buckets is settled here.

use vstd::prelude::*;

use crate::rules::item::Roll;
use crate::scalar::Scalar;

verus! {

pub type StatId = String;

#[derive(Debug, Clone, Copy, PartialEq, Eq, Structural)]
pub enum ModifierKind {
    Flat,
    Increased,
    More,
}

#[derive(Debug, Clone, Copy, PartialEq, Eq, Structural)]
pub struct Modifier {
    pub kind: ModifierKind,
    pub value: Roll,
}

/// The terms of `(base + flat) × (1 + increased) × ∏(1 + more_i)`: the base, flat and
/// increased ones are summed, the more ones are multiplied one by one.
#[derive(Debug)]
pub struct Terms {
    pub base: Vec<Scalar>,
    pub flat: Vec<Roll>,
    pub increased: Vec<Roll>,
    pub more: Vec<Roll>,
}

/// The values of the modifiers of one kind, in their order.
pub open spec fn values_of(modifiers: Seq<Modifier>, kind: ModifierKind) -> Seq<Roll>
    decreases modifiers.len(),
{
    if modifiers.len() == 0 {
        Seq::empty()
    } else {
        let before = values_of(modifiers.drop_last(), kind);
        if modifiers.last().kind == kind {
            before.push(modifiers.last().value)
        } else {
            before
        }
    }
}

/// Sorts modifiers into the terms of the formula.
pub fn aggregate(base: Vec<Scalar>, modifiers: &[Modifier]) -> (terms: Terms)
    ensures
        terms.base == base,
        terms.flat@ == values_of(modifiers@, ModifierKind::Flat),
        terms.increased@ == values_of(modifiers@, ModifierKind::Increased),
        terms.more@ == values_of(modifiers@, ModifierKind::More),
{
    let mut flat: Vec<Roll> = Vec::new();
    let mut increased: Vec<Roll> = Vec::new();
    let mut more: Vec<Roll> = Vec::new();
    for i in 0..modifiers.len()
        invariant
            flat@ == values_of(modifiers@.take(i as int), ModifierKind::Flat),
            increased@ == values_of(modifiers@.take(i as int), ModifierKind::Increased),
            more@ == values_of(modifiers@.take(i as int), ModifierKind::More),
    {
        let m = modifiers[i];
        assert(modifiers@.take(i + 1).drop_last() =~= modifiers@.take(i as int));
        match m.kind {
            ModifierKind::Flat => flat.push(m.value),
            ModifierKind::Increased => increased.push(m.value),
            ModifierKind::More => more.push(m.value),
        }
    }
    assert(modifiers@.take(modifiers@.len() as int) =~= modifiers@);
    Terms { base, flat, increased, more }
}

/// Every modifier ends up in exactly one bucket.
pub proof fn law_buckets_partition(modifiers: Seq<Modifier>)
    ensures
        values_of(modifiers, ModifierKind::Flat).len() + values_of(
            modifiers,
            ModifierKind::Increased,
        ).len() + values_of(modifiers, ModifierKind::More).len() == modifiers.len(),
    decreases modifiers.len(),
{
    if modifiers.len() > 0 {
        law_buckets_partition(modifiers.drop_last());
    }
}

/// The values of a kind are those of the modifiers of that kind, and of no others.
pub proof fn law_buckets_hold_their_kind(modifiers: Seq<Modifier>, kind: ModifierKind, v: Roll)
    ensures
        values_of(modifiers, kind).contains(v) <==> modifiers.contains(Modifier { kind, value: v }),
    decreases modifiers.len(),
{
    if modifiers.len() > 0 {
        let less = modifiers.drop_last();
        let m = Modifier { kind, value: v };
        law_buckets_hold_their_kind(less, kind, v);
        let before = values_of(less, kind);
        let after = values_of(modifiers, kind);
        if before.contains(v) {
            let i = choose|i: int| 0 <= i < before.len() && before[i] == v;
            assert(after[i] == v);
            let j = choose|j: int| 0 <= j < less.len() && less[j] == m;
            assert(modifiers[j] == m);
        }
        if modifiers.last() == m {
            assert(modifiers[modifiers.len() - 1] == m);
            assert(after[after.len() - 1] == v);
        }
        if after.contains(v) && !before.contains(v) {
            let i = choose|i: int| 0 <= i < after.len() && after[i] == v;
            if i < before.len() {
                assert(before[i] == v);
            }
            assert(modifiers.last() == m);
        }
        if modifiers.contains(m) && modifiers.last() != m {
            let j = choose|j: int| 0 <= j < modifiers.len() && modifiers[j] == m;
            assert(less[j] == m);
        }
    } else {
        assert(!values_of(modifiers, kind).contains(v));
    }
}

} // verus!
