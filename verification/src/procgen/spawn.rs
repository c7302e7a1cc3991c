//! Spawn placement — picks Floor tiles for placing enemies (or anything else) on a
//! generated map. Built on top of `FlowField`: every candidate tile is reachable from
//! the goal by construction.
//!
//! Weighting is **linear in distance from the goal** — farther tiles are
//! proportionally more likely to be picked.

use vstd::prelude::*;

use crate::procgen::flow::{cell_of, FlowField, UNREACHABLE};
use crate::procgen::tilemap::{cell_index, lemma_cell_index, lemma_index_cell, on_grid};
use crate::rng::{Draw, RngState, SeededRng};
use crate::weighted::{
    entry_of, law_entries_are_picked_by_weight, law_every_number_is_owned, lemma_weight_before,
    lemma_weight_fits, owner, total_weight, weight_before, weight_of_all,
};

verus! {

/// Whether something may be placed on a cell at distance `d`.
pub open spec fn eligible(d: u32, min_distance: u32) -> bool {
    d != UNREACHABLE && d >= min_distance
}

/// The cells among the first `n` of the field, row by row, where something may be
/// placed, each with its distance.
pub open spec fn candidates(field: FlowField, min_distance: u32, n: int) -> Seq<(
    (u32, u32),
    u32,
)>
    decreases n,
{
    if n <= 0 {
        Seq::empty()
    } else {
        let before = candidates(field, min_distance, n - 1);
        let i = n - 1;
        let d = field.distances@[i];
        if eligible(d, min_distance) {
            before.push((((i % (field.width as int)) as u32, (i / (field.width as int)) as u32), d))
        } else {
            before
        }
    }
}

/// All cells of a field where something may be placed, row by row.
pub open spec fn all_candidates(field: FlowField, min_distance: u32) -> Seq<((u32, u32), u32)> {
    candidates(field, min_distance, field.distances@.len() as int)
}

/// The points of some candidates.
pub open spec fn points_of(c: Seq<((u32, u32), u32)>) -> Seq<(u32, u32)> {
    c.map_values(|p: ((u32, u32), u32)| p.0)
}

/// The weights of some candidates: their distances.
pub open spec fn weights_of(c: Seq<((u32, u32), u32)>) -> Seq<u32> {
    c.map_values(|p: ((u32, u32), u32)| p.1)
}

/// A sequence without its `i`-th element, whose place the last one takes.
pub open spec fn swap_removed<T>(s: Seq<T>, i: int) -> Seq<T> {
    s.update(i, s.last()).drop_last()
}

/// Which candidate is picked, and the generator after that: one in proportion to the
/// weights, or any with the same chance where nothing has weight.
pub open spec fn picked(g: RngState, weights: Seq<u32>) -> (int, RngState) {
    let total = weight_of_all(weights);
    if total == 0 {
        let last = (weights.len() - 1) as u64;
        (g.range64(0, last) as int, g.after(Draw::Range64 { first: 0, last }))
    } else {
        let last = (total - 1) as u64;
        (
            owner(weights, g.range64(0, last) as int),
            g.after(Draw::Range64 { first: 0, last }),
        )
    }
}

/// The points that are picked one after the other, each of them at most once, and the
/// generator after that.
pub open spec fn picks(
    g: RngState,
    points: Seq<(u32, u32)>,
    weights: Seq<u32>,
    count: nat,
) -> (Seq<(u32, u32)>, RngState)
    decreases count,
{
    if count == 0 || points.len() == 0 {
        (Seq::empty(), g)
    } else {
        let (i, g1) = picked(g, weights);
        let (rest, g2) = picks(
            g1,
            swap_removed(points, i),
            swap_removed(weights, i),
            (count - 1) as nat,
        );
        (seq![points[i]] + rest, g2)
    }
}

/// The points that are picked on a field, and the generator after that.
pub open spec fn spawn_points(
    g: RngState,
    field: FlowField,
    count: nat,
    min_distance: u32,
) -> (Seq<(u32, u32)>, RngState) {
    let c = all_candidates(field, min_distance);
    picks(g, points_of(c), weights_of(c), count)
}

/// A candidate that is picked is one of the candidates.
proof fn lemma_picked(g: RngState, weights: Seq<u32>)
    requires
        0 < weights.len() <= u32::MAX,
    ensures
        0 <= picked(g, weights).0 < weights.len(),
{
    crate::weighted::lemma_weight_grows(weights, 0, weights.len() as int);
    assert(weights.len() * u32::MAX <= u32::MAX * u32::MAX) by (nonlinear_arith)
        requires
            weights.len() <= u32::MAX,
    ;
    let total = weight_of_all(weights);
    if total != 0 {
        law_every_number_is_owned(weights, g.range64(0, (total - 1) as u64) as int);
    }
}

/// Pick up to `count` distinct Floor tiles from `field`, all at distance
/// `>= min_distance` from the goal, weighted linearly by distance.
///
/// Returns fewer than `count` if not enough candidates exist. Caller-side
/// rng controls determinism.
pub fn pick_spawn_points(
    rng: &mut SeededRng,
    field: &FlowField,
    count: usize,
    min_distance: u32,
) -> (out: Vec<(u32, u32)>)
    requires
        field.wf(),
    ensures
        (out@, final(rng)@) == spawn_points(old(rng)@, *field, count as nat, min_distance),
{
    let ghost start = rng@;
    let mut points: Vec<(u32, u32)> = Vec::new();
    let mut weights: Vec<u32> = Vec::new();
    let ghost w = field.width as int;
    let ghost h = field.height as int;
    assert(0 * w == 0);
    assert(points@ =~= points_of(candidates(*field, min_distance, 0 * w)));
    assert(weights@ =~= weights_of(candidates(*field, min_distance, 0 * w)));
    for y in 0..field.height
        invariant
            field.wf(),
            w == field.width,
            h == field.height,
            points@ == points_of(candidates(*field, min_distance, y * w)),
            weights@ == weights_of(candidates(*field, min_distance, y * w)),
            points@.len() == weights@.len(),
            points@.len() <= y * w,
    {
        assert((y + 1) * w == y * w + w) by (nonlinear_arith);
        for x in 0..field.width
            invariant
                field.wf(),
                w == field.width,
                h == field.height,
                y < h,
                (y + 1) * w == y * w + w,
                points@ == points_of(candidates(*field, min_distance, y * w + x)),
                weights@ == weights_of(candidates(*field, min_distance, y * w + x)),
                points@.len() == weights@.len(),
                points@.len() <= y * w + x,
        {
            let d: u32 = field.distance_at(x, y);
            proof {
                lemma_cell_index(w, h, (x as int, y as int));
            }
            if d != UNREACHABLE && d >= min_distance {
                points.push((x, y));
                weights.push(d);
            }
            assert(points@ =~= points_of(candidates(*field, min_distance, y * w + x + 1)));
            assert(weights@ =~= weights_of(candidates(*field, min_distance, y * w + x + 1)));
        }
    }
    assert(h * w == w * h) by (nonlinear_arith);
    let mut out: Vec<(u32, u32)> = Vec::new();
    let ghost all_points = points@;
    let ghost all_weights = weights@;
    let mut left: usize = count;
    assert(out@ + picks(rng@, points@, weights@, left as nat).0 =~= picks(
        start,
        all_points,
        all_weights,
        count as nat,
    ).0);
    while left > 0 && points.len() > 0
        invariant
            points@.len() == weights@.len(),
            points@.len() <= u32::MAX,
            out@ + picks(rng@, points@, weights@, left as nat).0 == picks(
                start,
                all_points,
                all_weights,
                count as nat,
            ).0,
            picks(rng@, points@, weights@, left as nat).1 == picks(
                start,
                all_points,
                all_weights,
                count as nat,
            ).1,
        decreases left,
    {
        let ghost g = rng@;
        let ghost p = points@;
        let ghost ws = weights@;
        let ghost done = out@;
        proof {
            lemma_picked(g, ws);
            lemma_weight_fits(ws);
        }
        let total: u64 = total_weight(&weights);
        let chosen: usize = if total == 0 {
            rng.range_u64(0, points.len() as u64 - 1) as usize
        } else {
            let pick: u64 = rng.range_u64(0, total - 1);
            entry_of(&weights, pick)
        };
        assert(chosen == picked(g, ws).0);
        let pt = points.swap_remove(chosen);
        weights.swap_remove(chosen);
        out.push(pt);
        left = left - 1;
        assert(out@ + picks(rng@, points@, weights@, left as nat).0 =~= done + picks(
            g,
            p,
            ws,
            (left + 1) as nat,
        ).0);
    }
    assert(out@ =~= out@ + picks(rng@, points@, weights@, left as nat).0);
    out
}

/// The candidates among the first `n` cells are distinct, and each of them is a cell of
/// the field where something may be placed.
proof fn lemma_candidates(field: FlowField, min_distance: u32, n: int)
    requires
        field.wf(),
        0 <= n <= field.distances@.len(),
    ensures
        ({
            let c = candidates(field, min_distance, n);
            &&& c.len() <= n
            &&& forall|i: int|
                #![trigger c[i]]
                0 <= i < c.len() ==> on_grid(
                    field.width as int,
                    field.height as int,
                    cell_of(c[i].0),
                ) && cell_index(field.width as int, cell_of(c[i].0)) < n && c[i].1 == field.at(
                    cell_of(c[i].0),
                ) && eligible(c[i].1, min_distance)
            &&& forall|i: int, j: int|
                0 <= i < j < c.len() ==> (#[trigger] c[i]).0 != (#[trigger] c[j]).0
        }),
    decreases n,
{
    if n > 0 {
        lemma_candidates(field, min_distance, n - 1);
        lemma_index_cell(field.width as int, field.height as int, n - 1);
    }
}

/// Every cell among the first `n` where something may be placed is a candidate.
proof fn lemma_candidates_complete(field: FlowField, min_distance: u32, n: int, i: int)
    requires
        field.wf(),
        0 <= i < n <= field.distances@.len(),
        eligible(field.distances@[i], min_distance),
    ensures
        points_of(candidates(field, min_distance, n)).contains(
            ((i % (field.width as int)) as u32, (i / (field.width as int)) as u32),
        ),
    decreases n,
{
    let p = ((i % (field.width as int)) as u32, (i / (field.width as int)) as u32);
    let c = candidates(field, min_distance, n);
    if i == n - 1 {
        assert(points_of(c)[c.len() - 1] == p);
    } else {
        lemma_candidates_complete(field, min_distance, n - 1, i);
        let before = candidates(field, min_distance, n - 1);
        let k = choose|k: int| 0 <= k < points_of(before).len() && points_of(before)[k] == p;
        assert(points_of(c)[k] == p);
    }
}

/// What is picked from distinct points are distinct points among them, as many as were
/// asked for or as there are.
proof fn lemma_picks(g: RngState, points: Seq<(u32, u32)>, weights: Seq<u32>, count: nat)
    requires
        points.len() == weights.len(),
        points.len() <= u32::MAX,
        points.no_duplicates(),
    ensures
        ({
            let out = picks(g, points, weights, count).0;
            &&& out.len() == if count < points.len() {
                count
            } else {
                points.len()
            }
            &&& out.no_duplicates()
            &&& forall|i: int| 0 <= i < out.len() ==> points.contains(#[trigger] out[i])
        }),
    decreases count,
{
    if count > 0 && points.len() > 0 {
        lemma_picked(g, weights);
        let (k, g1) = picked(g, weights);
        let fewer = swap_removed(points, k);
        let rest = picks(g1, fewer, swap_removed(weights, k), (count - 1) as nat).0;
        let out = picks(g, points, weights, count).0;
        assert forall|i: int| 0 <= i < fewer.len() implies points.contains(#[trigger] fewer[i])
            && fewer[i] != points[k] by {
            if i == k {
                assert(fewer[i] == points[points.len() - 1]);
            } else {
                assert(fewer[i] == points[i]);
            }
        }
        assert(fewer.no_duplicates());
        lemma_picks(g1, fewer, swap_removed(weights, k), (count - 1) as nat);
        assert forall|i: int| 0 <= i < out.len() implies points.contains(#[trigger] out[i]) by {
            if i > 0 {
                assert(out[i] == rest[i - 1]);
                assert(fewer.contains(rest[i - 1]));
                let j = choose|j: int| 0 <= j < fewer.len() && fewer[j] == rest[i - 1];
                assert(points.contains(fewer[j]));
            } else {
                assert(out[i] == points[k]);
            }
        }
        assert forall|i: int, j: int|
            0 <= i < out.len() && 0 <= j < out.len() && i != j implies out[i] != out[j] by {
            if i > 0 && j > 0 {
                assert(out[i] == rest[i - 1]);
                assert(out[j] == rest[j - 1]);
            } else {
                let m = if i > 0 { i } else { j };
                assert(out[m] == rest[m - 1]);
                assert(fewer.contains(rest[m - 1]));
                let q = choose|q: int| 0 <= q < fewer.len() && fewer[q] == rest[m - 1];
                assert(fewer[q] != points[k]);
            }
        }
    }
}

/// The points picked on a field are distinct, each of them can be reached from the goal
/// and is at least the least distance away from it; there are as many of them as were
/// asked for, or as there are cells to pick.
pub proof fn law_spawn_points(g: RngState, field: FlowField, count: nat, min_distance: u32)
    requires
        field.wf(),
    ensures
        ({
            let out = spawn_points(g, field, count, min_distance).0;
            let all = all_candidates(field, min_distance);
            &&& out.no_duplicates()
            &&& forall|i: int|
                #![trigger out[i]]
                0 <= i < out.len() ==> field.at(cell_of(out[i])) != UNREACHABLE && field.at(
                    cell_of(out[i]),
                ) >= min_distance
            &&& out.len() == if count < all.len() {
                count
            } else {
                all.len()
            }
        }),
{
    let all = all_candidates(field, min_distance);
    let points = points_of(all);
    lemma_candidates(field, min_distance, field.distances@.len() as int);
    assert forall|i: int, j: int|
        0 <= i < points.len() && 0 <= j < points.len() && i != j implies points[i] != points[j] by {
        if i < j {
            assert(all[i].0 != all[j].0);
        } else {
            assert(all[j].0 != all[i].0);
        }
    }
    lemma_picks(g, points, weights_of(all), count);
    let out = spawn_points(g, field, count, min_distance).0;
    assert forall|i: int| #![trigger out[i]] 0 <= i < out.len() implies field.at(cell_of(out[i]))
        != UNREACHABLE && field.at(cell_of(out[i])) >= min_distance by {
        assert(points.contains(out[i]));
        let k = choose|k: int| 0 <= k < points.len() && points[k] == out[i];
        assert(all[k].0 == out[i]);
    }
}

/// Asked for at least as many points as there are candidates, the picks are all of them:
/// every cell that can be reached and is far enough away is picked.
pub proof fn law_ample_count_picks_everything(
    g: RngState,
    field: FlowField,
    count: nat,
    min_distance: u32,
    p: (u32, u32),
)
    requires
        field.wf(),
        count >= all_candidates(field, min_distance).len(),
        field.at(cell_of(p)) != UNREACHABLE,
        field.at(cell_of(p)) >= min_distance,
    ensures
        spawn_points(g, field, count, min_distance).0.contains(p),
{
    let w = field.width as int;
    let all = all_candidates(field, min_distance);
    let points = points_of(all);
    let out = spawn_points(g, field, count, min_distance).0;
    lemma_cell_index(w, field.height as int, cell_of(p));
    lemma_candidates_complete(
        field,
        min_distance,
        field.distances@.len() as int,
        cell_index(w, cell_of(p)),
    );
    assert(points.contains(p));
    lemma_candidates(field, min_distance, field.distances@.len() as int);
    assert forall|i: int, j: int|
        0 <= i < points.len() && 0 <= j < points.len() && i != j implies points[i] != points[j] by {
        if i < j {
            assert(all[i].0 != all[j].0);
        } else {
            assert(all[j].0 != all[i].0);
        }
    }
    lemma_picks(g, points, weights_of(all), count);
    out.unique_seq_to_set();
    points.unique_seq_to_set();
    assert(out.to_set().subset_of(points.to_set())) by {
        assert forall|q: (u32, u32)| out.to_set().contains(q) implies points.to_set().contains(
            q,
        ) by {
            let i = choose|i: int| 0 <= i < out.len() && out[i] == q;
            assert(points.contains(out[i]));
        }
    }
    vstd::set_lib::lemma_subset_equality(out.to_set(), points.to_set());
    assert(points.to_set().contains(p));
    assert(out.to_set().contains(p));
}

/// The same generator and the same field give the same picks.
pub proof fn law_picks_are_deterministic(
    a: (Seq<(u32, u32)>, RngState),
    b: (Seq<(u32, u32)>, RngState),
    g: RngState,
    field: FlowField,
    count: nat,
    min_distance: u32,
)
    requires
        a == spawn_points(g, field, count, min_distance),
        b == spawn_points(g, field, count, min_distance),
    ensures
        a == b,
{
}

/// The cells where something may be placed: those that are reached from the goal, at least
/// the given number of steps away from it.
pub open spec fn far_cells(field: FlowField, min_distance: u32) -> Set<(u32, u32)> {
    Set::new(
        |p: (u32, u32)|
            field.at((p.0 as int, p.1 as int)) != u32::MAX && field.at((p.0 as int, p.1 as int))
                >= min_distance,
    )
}

/// The candidates are exactly the cells where something may be placed.
proof fn lemma_far_cells(field: FlowField, min_distance: u32)
    requires
        field.wf(),
    ensures
        ({
            let points = points_of(all_candidates(field, min_distance));
            &&& points.no_duplicates()
            &&& points.to_set() == far_cells(field, min_distance)
            &&& points.len() <= u32::MAX
        }),
{
    let w = field.width as int;
    let n = field.distances@.len() as int;
    let all = all_candidates(field, min_distance);
    let points = points_of(all);
    lemma_candidates(field, min_distance, n);
    assert forall|i: int, j: int|
        0 <= i < points.len() && 0 <= j < points.len() && i != j implies points[i] != points[j] by {
        if i < j {
            assert(all[i].0 != all[j].0);
        } else {
            assert(all[j].0 != all[i].0);
        }
    }
    assert forall|p: (u32, u32)| points.to_set().contains(p) <==> far_cells(
        field,
        min_distance,
    ).contains(p) by {
        if points.to_set().contains(p) {
            let k = choose|k: int| 0 <= k < points.len() && points[k] == p;
            assert(all[k].0 == p);
        }
        if far_cells(field, min_distance).contains(p) {
            lemma_cell_index(w, field.height as int, cell_of(p));
            lemma_candidates_complete(field, min_distance, n, cell_index(w, cell_of(p)));
            assert(points.contains(p));
        }
    }
    assert(points.to_set() =~= far_cells(field, min_distance));
}

/// As many points are picked as were asked for, as far as there are cells that are far
/// enough away and can be reached; no two of them are the same, and all of them are such
/// cells.
pub proof fn law_as_many_points_as_asked_for(
    g: RngState,
    field: FlowField,
    count: nat,
    min_distance: u32,
)
    requires
        field.wf(),
    ensures
        ({
            let cells = far_cells(field, min_distance);
            let out = spawn_points(g, field, count, min_distance).0;
            &&& cells.finite()
            &&& count <= cells.len() ==> out.len() == count
            &&& count >= cells.len() ==> out.len() == cells.len()
            &&& out.no_duplicates()
            &&& out.to_set().subset_of(cells)
        }),
{
    lemma_far_cells(field, min_distance);
    let all = all_candidates(field, min_distance);
    let points = points_of(all);
    points.unique_seq_to_set();
    lemma_picks(g, points, weights_of(all), count);
    let out = spawn_points(g, field, count, min_distance).0;
    assert forall|p: (u32, u32)| out.to_set().contains(p) implies far_cells(
        field,
        min_distance,
    ).contains(p) by {
        let i = choose|i: int| 0 <= i < out.len() && out[i] == p;
        assert(points.contains(out[i]));
        assert(points.to_set().contains(p));
    }
}

/// The cells that points are picked from are looked at row by row, and each of them weighs
/// as much as it is steps away from the goal.
pub proof fn law_far_cells_weigh_more(field: FlowField, min_distance: u32, i: int, j: int)
    requires
        field.wf(),
    ensures
        ({
            let all = all_candidates(field, min_distance);
            let (points, weights) = (points_of(all), weights_of(all));
            &&& points.to_set() == far_cells(field, min_distance)
            &&& points.len() == weights.len()
            &&& 0 <= i < points.len() ==> weights[i] == field.at(
                (points[i].0 as int, points[i].1 as int),
            )
            &&& 0 <= i < j < points.len() ==> points[i].1 < points[j].1 || (points[i].1
                == points[j].1 && points[i].0 < points[j].0)
        }),
{
    let n = field.distances@.len() as int;
    lemma_far_cells(field, min_distance);
    lemma_candidates(field, min_distance, n);
    let all = all_candidates(field, min_distance);
    if 0 <= i < j < all.len() {
        lemma_candidates_in_order(field, min_distance, n, i, j);
        let w = field.width as int;
        let h = field.height as int;
        let (p, q) = (cell_of(all[i].0), cell_of(all[j].0));
        assert(on_grid(w, h, p));
        assert(on_grid(w, h, q));
        lemma_cell_index(w, h, p);
        lemma_cell_index(w, h, q);
        if q.1 < p.1 {
            assert(q.1 * w + w <= p.1 * w) by (nonlinear_arith)
                requires
                    q.1 + 1 <= p.1,
                    w >= 0,
            ;
        }
    }
}

proof fn lemma_candidates_in_order(field: FlowField, min_distance: u32, n: int, i: int, j: int)
    requires
        field.wf(),
        0 <= n <= field.distances@.len(),
        0 <= i < j < candidates(field, min_distance, n).len(),
    ensures
        ({
            let c = candidates(field, min_distance, n);
            let w = field.width as int;
            cell_index(w, cell_of(c[i].0)) < cell_index(w, cell_of(c[j].0))
        }),
    decreases n,
{
    if n > 0 {
        lemma_candidates(field, min_distance, n - 1);
        lemma_index_cell(field.width as int, field.height as int, n - 1);
        let before = candidates(field, min_distance, n - 1);
        if j < before.len() {
            lemma_candidates_in_order(field, min_distance, n - 1, i, j);
        } else {
            assert(before[i] == candidates(field, min_distance, n)[i]);
        }
    }
}

/// Which point is picked first: the one that owns the number that is drawn below the total
/// weight, or any with the same chance where none has weight. The others are picked the
/// same way from what is left, where the last point has taken its place.
pub proof fn law_points_are_picked_by_weight(
    g: RngState,
    points: Seq<(u32, u32)>,
    weights: Seq<u32>,
    count: nat,
    k: int,
)
    requires
        0 < points.len() == weights.len() <= u32::MAX,
        count > 0,
        0 <= k < points.len(),
        ({
            let total = weight_before(weights, weights.len() as int);
            if total == 0 {
                g.range64(0, (points.len() - 1) as u64) == k
            } else {
                weight_before(weights, k) <= g.range64(0, (total - 1) as u64) < weight_before(
                    weights,
                    k,
                ) + weights[k]
            }
        }),
    ensures
        ({
            let total = weight_before(weights, weights.len() as int);
            let last = if total == 0 {
                points.len() - 1
            } else {
                total - 1
            };
            let n = points.len() - 1;
            let h = RngState {
                seed: g.seed,
                past: g.past.push(Draw::Range64 { first: 0, last: last as u64 }),
            };
            let left = Seq::new(
                n as nat,
                |j: int|
                    if j == k {
                        points[n]
                    } else {
                        points[j]
                    },
            );
            let heavy = Seq::new(
                n as nat,
                |j: int|
                    if j == k {
                        weights[n]
                    } else {
                        weights[j]
                    },
            );
            picks(g, points, weights, count).0 == seq![points[k]] + picks(
                h,
                left,
                heavy,
                (count - 1) as nat,
            ).0
        }),
{
    let n = points.len() - 1;
    lemma_weight_before(weights, weights.len() as int);
    lemma_weight_fits(weights);
    let total = weight_of_all(weights);
    if total > 0 {
        law_entries_are_picked_by_weight(weights, g.range64(0, (total - 1) as u64) as int, k);
    }
    let left = Seq::new(
        n as nat,
        |j: int|
            if j == k {
                points[n]
            } else {
                points[j]
            },
    );
    let heavy = Seq::new(
        n as nat,
        |j: int|
            if j == k {
                weights[n]
            } else {
                weights[j]
            },
    );
    assert(picked(g, weights).0 == k);
    assert(swap_removed(points, k) =~= left);
    assert(swap_removed(weights, k) =~= heavy);
}

/// Picking points puts requests to the generator and leaves it the same one.
pub proof fn lemma_points_keep_the_seed(
    g: RngState,
    field: FlowField,
    count: nat,
    min_distance: u32,
)
    ensures
        spawn_points(g, field, count, min_distance).1.seed == g.seed,
{
    let c = all_candidates(field, min_distance);
    lemma_picks_keep_the_seed(g, points_of(c), weights_of(c), count);
}

proof fn lemma_picks_keep_the_seed(
    g: RngState,
    points: Seq<(u32, u32)>,
    weights: Seq<u32>,
    count: nat,
)
    ensures
        picks(g, points, weights, count).1.seed == g.seed,
    decreases count,
{
    if count > 0 && points.len() > 0 {
        let (i, g1) = picked(g, weights);
        lemma_picks_keep_the_seed(
            g1,
            swap_removed(points, i),
            swap_removed(weights, i),
            (count - 1) as nat,
        );
    }
}

} // verus!
