//! Cells of a rectangular grid, and walks between them.

use vstd::prelude::*;

verus! {

/// A cell by its column and row.
pub type Cell = (int, int);

/// Whether two cells share an edge.
pub open spec fn adjacent(a: Cell, b: Cell) -> bool {
    ||| a.0 == b.0 && (a.1 == b.1 + 1 || b.1 == a.1 + 1)
    ||| a.1 == b.1 && (a.0 == b.0 + 1 || b.0 == a.0 + 1)
}

/// Whether some walk of `n` steps leads from `from` to `to`, each step going to an
/// adjacent cell of `open`. Where the walk starts need not be in `open`.
pub open spec fn walk(open: Set<Cell>, n: nat, from: Cell, to: Cell) -> bool
    decreases n,
{
    if n == 0 {
        from == to
    } else {
        open.contains(to) && exists|prev: Cell|
            #[trigger] adjacent(prev, to) && walk(open, (n - 1) as nat, from, prev)
    }
}

/// Whether some walk through `open` leads from `from` to `to`.
pub open spec fn reaches(open: Set<Cell>, from: Cell, to: Cell) -> bool {
    exists|n: nat| walk(open, n, from, to)
}

/// A walk can be carried on by one more step.
pub proof fn lemma_walk_step(open: Set<Cell>, n: nat, from: Cell, via: Cell, to: Cell)
    requires
        walk(open, n, from, via),
        adjacent(via, to),
        open.contains(to),
    ensures
        walk(open, n + 1, from, to),
{
    assert(walk(open, ((n + 1) - 1) as nat, from, via));
}

/// Two walks, one ending where the other starts, make one.
pub proof fn lemma_walk_join(open: Set<Cell>, m: nat, n: nat, a: Cell, b: Cell, c: Cell)
    requires
        walk(open, m, a, b),
        walk(open, n, b, c),
    ensures
        walk(open, m + n, a, c),
    decreases n,
{
    if n > 0 {
        let prev = choose|prev: Cell|
            #[trigger] adjacent(prev, c) && walk(open, (n - 1) as nat, b, prev);
        lemma_walk_join(open, m, (n - 1) as nat, a, b, prev);
        lemma_walk_step(open, m + (n - 1) as nat, a, prev, c);
        assert(m + (n - 1) as nat + 1 == m + n);
    }
}

/// A walk stays a walk where more cells are open.
pub proof fn lemma_walk_widen(small: Set<Cell>, large: Set<Cell>, n: nat, a: Cell, b: Cell)
    requires
        walk(small, n, a, b),
        small.subset_of(large),
    ensures
        walk(large, n, a, b),
    decreases n,
{
    if n > 0 {
        let prev = choose|prev: Cell|
            #[trigger] adjacent(prev, b) && walk(small, (n - 1) as nat, a, prev);
        lemma_walk_widen(small, large, (n - 1) as nat, a, prev);
        lemma_walk_step(large, (n - 1) as nat, a, prev, b);
    }
}

/// Cells that `a` reaches through `open` reach each other through it.
pub proof fn lemma_reaches_trans(open: Set<Cell>, a: Cell, b: Cell, c: Cell)
    requires
        reaches(open, a, b),
        reaches(open, b, c),
    ensures
        reaches(open, a, c),
{
    let m = choose|m: nat| walk(open, m, a, b);
    let n = choose|n: nat| walk(open, n, b, c);
    lemma_walk_join(open, m, n, a, b, c);
}

/// What is reached through some cells is reached through more of them.
pub proof fn lemma_reaches_widen(small: Set<Cell>, large: Set<Cell>, a: Cell, b: Cell)
    requires
        reaches(small, a, b),
        small.subset_of(large),
    ensures
        reaches(large, a, b),
{
    let n = choose|n: nat| walk(small, n, a, b);
    lemma_walk_widen(small, large, n, a, b);
}

} // verus!
