//! Flow-field pathfinding: for every cell, how many steps lead back to the goal.
//!
//! Computed once per goal change — typically when the player moves between
//! tiles — by a 4-connected breadth-first search from the goal across
//! `Tile::Floor`. Walls and unreachable tiles stay at `UNREACHABLE`. Enemies
//! follow the gradient: `next_step_from(x, y)` returns whichever neighbor is
//! closest to the goal, with no path search of their own.

use vstd::prelude::*;

use crate::procgen::grid::{adjacent, lemma_walk_step, reaches, walk, Cell};
use crate::procgen::tilemap::{
    cell_index, lemma_cell_index, lemma_index_cell, on_grid, Tile, TileMap,
};

verus! {

/// Sentinel for "no path to goal" (walls, unreachable rooms).
pub const UNREACHABLE: u32 = u32::MAX;

#[derive(Debug)]
pub struct FlowField {
    pub width: u32,
    pub height: u32,
    pub goal: (u32, u32),
    /// Row-major. `distances[y * width + x]` = step count back to `goal`,
    /// or `UNREACHABLE` if not connected via `Floor` tiles.
    pub distances: Vec<u32>,
}

/// The neighbors of a cell in the order north, east, south, west.
pub open spec fn neighbors(c: Cell) -> Seq<Cell> {
    seq![(c.0, c.1 - 1), (c.0 + 1, c.1), (c.0, c.1 + 1), (c.0 - 1, c.1)]
}

/// Whether `d` is the length of the shortest walk from `from` to `to` through `open`.
pub open spec fn is_distance(open: Set<Cell>, from: Cell, to: Cell, d: int) -> bool {
    &&& 0 <= d
    &&& walk(open, d as nat, from, to)
    &&& forall|n: nat| #[trigger] walk(open, n, from, to) ==> d <= n
}

impl FlowField {
    /// Whether the field holds one distance per cell, and not more cells than `u32`
    /// counts.
    pub open spec fn wf(self) -> bool {
        self.width * self.height <= u32::MAX && self.distances@.len() == self.width * self.height
    }

    /// The distance noted for a cell; outside the grid nothing is reachable.
    pub open spec fn at(self, c: Cell) -> u32 {
        if on_grid(self.width as int, self.height as int, c) {
            self.distances@[cell_index(self.width as int, c)]
        } else {
            UNREACHABLE
        }
    }

    /// The goal as a cell.
    pub open spec fn target(self) -> Cell {
        (self.goal.0 as int, self.goal.1 as int)
    }

    /// Whether this is the field of the given map and goal: every cell that can be
    /// walked to from the goal notes the length of the shortest walk, and every other
    /// cell is noted as unreachable.
    pub open spec fn measures(self, map: TileMap, goal: Cell) -> bool {
        &&& self.wf()
        &&& self.width == map.width
        &&& self.height == map.height
        &&& self.target() == goal
        &&& forall|c: Cell|
            #![trigger self.at(c)]
            on_grid(map.width as int, map.height as int, c) ==> {
                if on_grid(map.width as int, map.height as int, goal) && reaches(
                    map.floor(),
                    goal,
                    c,
                ) {
                    self.at(c) != UNREACHABLE && is_distance(
                        map.floor(),
                        goal,
                        c,
                        self.at(c) as int,
                    )
                } else {
                    self.at(c) == UNREACHABLE
                }
            }
    }
}

/// The state of the search: `queue` holds the cells met so far in the order in which
/// they were met, the first `head` of them have been looked at, and all neighbors of
/// those have been met.
#[verifier::opaque]
pub open spec fn searching(
    map: TileMap,
    goal: Cell,
    distances: Seq<u32>,
    queue: Seq<(u32, u32)>,
    head: int,
) -> bool {
    let w = map.width as int;
    let h = map.height as int;
    &&& distances.len() == w * h
    &&& 0 <= head <= queue.len()
    &&& queue.len() >= 1 ==> queue[0] == (goal.0 as u32, goal.1 as u32)
    &&& forall|i: int| 0 <= i < queue.len() ==> on_grid(w, h, cell_of(#[trigger] queue[i]))
    &&& forall|i: int, j: int| 0 <= i < j < queue.len() ==> #[trigger] queue[i] != #[trigger] queue[j]
    &&& forall|i: int|
        #![trigger queue[i]]
        0 <= i < queue.len() ==> noted(w, distances, cell_of(queue[i])) <= i && walk(
            map.floor(),
            noted(w, distances, cell_of(queue[i])) as nat,
            goal,
            cell_of(queue[i]),
        )
    &&& forall|i: int, j: int|
        0 <= i <= j < queue.len() ==> noted(w, distances, cell_of(#[trigger] queue[i])) <= noted(
            w,
            distances,
            cell_of(#[trigger] queue[j]),
        )
    &&& forall|i: int, j: int|
        head <= i < queue.len() && head <= j < queue.len() ==> noted(
            w,
            distances,
            cell_of(#[trigger] queue[j]),
        ) <= noted(w, distances, cell_of(#[trigger] queue[i])) + 1
    &&& forall|c: Cell|
        on_grid(w, h, c) && #[trigger] noted(w, distances, c) != UNREACHABLE ==> met(queue, c)
}

/// The cell of a pair of coordinates.
pub open spec fn cell_of(p: (u32, u32)) -> Cell {
    (p.0 as int, p.1 as int)
}

/// What is noted for a cell of the grid.
pub open spec fn noted(width: int, distances: Seq<u32>, c: Cell) -> u32 {
    distances[cell_index(width, c)]
}

/// Whether the search has met a cell.
pub open spec fn met(queue: Seq<(u32, u32)>, c: Cell) -> bool {
    exists|i: int| 0 <= i < queue.len() && cell_of(#[trigger] queue[i]) == c
}

/// Whether everything next to the first `head` cells of the queue has been met in time.
#[verifier::opaque]
pub open spec fn settled(
    map: TileMap,
    distances: Seq<u32>,
    queue: Seq<(u32, u32)>,
    head: int,
) -> bool {
    forall|i: int, c: Cell|
        0 <= i < head && #[trigger] adjacent(cell_of(queue[i]), c) && map.floor().contains(c)
            ==> in_time(map.width as int, distances, cell_of(queue[i]), c)
}

/// Whether a cell was met, no later than one step after the cell `from`.
pub open spec fn in_time(width: int, distances: Seq<u32>, from: Cell, c: Cell) -> bool {
    noted(width, distances, c) != UNREACHABLE && noted(width, distances, c) <= noted(
        width,
        distances,
        from,
    ) + 1
}

/// There are not more distinct cells on a grid than its size says.
pub proof fn lemma_distinct_cells_fit(w: int, h: int, cells: Seq<(u32, u32)>)
    requires
        0 <= w,
        0 <= h,
        forall|i: int| 0 <= i < cells.len() ==> on_grid(w, h, cell_of(#[trigger] cells[i])),
        forall|i: int, j: int|
            0 <= i < j < cells.len() ==> #[trigger] cells[i] != #[trigger] cells[j],
    ensures
        cells.len() <= w * h,
{
    let places = Seq::new(cells.len(), |i: int| cell_index(w, cell_of(cells[i])));
    assert forall|i: int, j: int|
        0 <= i < places.len() && 0 <= j < places.len() && i != j implies places[i] != places[j] by {
        lemma_cell_index(w, h, cell_of(cells[i]));
        lemma_cell_index(w, h, cell_of(cells[j]));
        if i < j {
            assert(cells[i] != cells[j]);
        } else {
            assert(cells[j] != cells[i]);
        }
    }
    places.unique_seq_to_set();
    assert forall|k: int| places.to_set().contains(k) implies vstd::set_lib::set_int_range(
        0,
        w * h,
    ).contains(k) by {
        let i = choose|i: int| 0 <= i < places.len() && places[i] == k;
        lemma_cell_index(w, h, cell_of(cells[i]));
    }
    assert(0 <= w * h) by (nonlinear_arith)
        requires
            0 <= w,
            0 <= h,
    ;
    vstd::set_lib::lemma_int_range(0, w * h);
    vstd::set_lib::lemma_len_subset(places.to_set(), vstd::set_lib::set_int_range(0, w * h));
}

impl FlowField {
    /// Looks at one neighbor `(x, y)` of the cell at the head of the queue, which is `d`
    /// steps away from the goal: if it is floor and was not met yet, it is now.
    fn visit(
        map: &TileMap,
        distances: &mut Vec<u32>,
        queue: &mut Vec<(u32, u32)>,
        head: usize,
        x: u32,
        y: u32,
        goal: Ghost<Cell>,
    )
        requires
            map.wf(),
            head < old(queue)@.len(),
            searching(*map, goal@, old(distances)@, old(queue)@, head as int),
            settled(*map, old(distances)@, old(queue)@, head as int),
            adjacent(cell_of(old(queue)@[head as int]), (x as int, y as int)),
        ensures
            searching(*map, goal@, final(distances)@, final(queue)@, head as int),
            settled(*map, final(distances)@, final(queue)@, head as int),
            old(queue)@.len() <= final(queue)@.len(),
            final(queue)@.subrange(0, old(queue)@.len() as int) == old(queue)@,
            forall|c: Cell|
                #![trigger noted(map.width as int, final(distances)@, c)]
                on_grid(map.width as int, map.height as int, c) && noted(
                    map.width as int,
                    old(distances)@,
                    c,
                ) != UNREACHABLE ==> noted(map.width as int, final(distances)@, c) == noted(
                    map.width as int,
                    old(distances)@,
                    c,
                ),
            map.floor().contains((x as int, y as int)) ==> in_time(
                map.width as int,
                final(distances)@,
                cell_of(old(queue)@[head as int]),
                (x as int, y as int),
            ),
    {
        let ghost w = map.width as int;
        let ghost h = map.height as int;
        let ghost before = distances@;
        let ghost met_before = queue@;
        let ghost c: Cell = (x as int, y as int);
        proof {
            reveal(searching);
        }
        let (hx, hy) = queue[head];
        let ghost here: Cell = (hx as int, hy as int);
        match map.tile_at(x, y) {
            Tile::Wall => {
                assert(queue@.subrange(0, queue@.len() as int) =~= queue@);
                return ;
            },
            Tile::Floor => {},
        }
        proof {
            lemma_cell_index(w, h, c);
            lemma_cell_index(w, h, here);
            lemma_distinct_cells_fit(w, h, queue@);
            assert(queue@[head as int] == (hx, hy));
        }
        let d: u32 = distances[(hy * map.width + hx) as usize];
        assert(d == noted(w, before, here));
        assert(d <= head);
        let next_d: u32 = d + 1;
        let nidx: usize = (y * map.width + x) as usize;
        if distances[nidx] > next_d {
            proof {
                if noted(w, before, c) != UNREACHABLE {
                    let i = choose|i: int|
                        0 <= i < queue@.len() && cell_of(#[trigger] queue@[i]) == c;
                    if i < head {
                        assert(noted(w, before, cell_of(queue@[i])) <= noted(
                            w,
                            before,
                            cell_of(queue@[head as int]),
                        ));
                    }
                    assert(false);
                }
            }
            distances.set(nidx, next_d);
            queue.push((x, y));
            proof {
                lemma_push(*map, goal@, before, met_before, head as int, (x, y), distances@);
                assert(queue@.subrange(0, met_before.len() as int) =~= met_before);
            }
        } else {
            assert(queue@.subrange(0, queue@.len() as int) =~= queue@);
            proof {
                if noted(w, before, c) == UNREACHABLE {
                    lemma_unmet_fits(*map, goal@, before, met_before, head as int, (x, y));
                }
            }
        }
    }
}

/// While some cell is unmet, there are fewer met cells than the grid has.
proof fn lemma_unmet_fits(
    map: TileMap,
    goal: Cell,
    distances: Seq<u32>,
    queue: Seq<(u32, u32)>,
    head: int,
    p: (u32, u32),
)
    requires
        map.wf(),
        searching(map, goal, distances, queue, head),
        on_grid(map.width as int, map.height as int, cell_of(p)),
        noted(map.width as int, distances, cell_of(p)) == UNREACHABLE,
    ensures
        queue.len() < map.width * map.height,
{
    reveal(searching);
    let w = map.width as int;
    let h = map.height as int;
    let more = queue.push(p);
    lemma_distinct_cells_fit(w, h, queue);
    assert forall|i: int| 0 <= i < queue.len() implies #[trigger] queue[i] != p by {
        assert(noted(w, distances, cell_of(queue[i])) <= i);
    }
    assert forall|i: int| 0 <= i < more.len() implies on_grid(w, h, cell_of(#[trigger] more[i])) by {
        if i < queue.len() {
            assert(more[i] == queue[i]);
        }
    }
    assert forall|i: int, j: int| 0 <= i < j < more.len() implies #[trigger] more[i]
        != #[trigger] more[j] by {
        assert(more[i] == queue[i]);
        if j < queue.len() {
            assert(more[j] == queue[j]);
        }
    }
    lemma_distinct_cells_fit(w, h, more);
}

/// Meeting one more cell, one step further than the head of the queue, keeps the search
/// going.
proof fn lemma_push(
    map: TileMap,
    goal: Cell,
    before: Seq<u32>,
    queue: Seq<(u32, u32)>,
    head: int,
    p: (u32, u32),
    after: Seq<u32>,
)
    requires
        map.wf(),
        0 <= head < queue.len(),
        searching(map, goal, before, queue, head),
        settled(map, before, queue, head),
        map.floor().contains(cell_of(p)),
        adjacent(cell_of(queue[head]), cell_of(p)),
        noted(map.width as int, before, cell_of(p)) == UNREACHABLE,
        after == before.update(
            cell_index(map.width as int, cell_of(p)),
            (noted(map.width as int, before, cell_of(queue[head])) + 1) as u32,
        ),
    ensures
        searching(map, goal, after, queue.push(p), head),
        settled(map, after, queue.push(p), head),
        forall|c: Cell|
            #![trigger noted(map.width as int, after, c)]
            on_grid(map.width as int, map.height as int, c) && noted(
                map.width as int,
                before,
                c,
            ) != UNREACHABLE ==> noted(map.width as int, after, c) == noted(
                map.width as int,
                before,
                c,
            ),
        in_time(map.width as int, after, cell_of(queue[head]), cell_of(p)),
{
    reveal(searching);
    reveal(settled);
    let w = map.width as int;
    let h = map.height as int;
    let more = queue.push(p);
    let d = noted(w, before, cell_of(queue[head]));
    lemma_unmet_fits(map, goal, before, queue, head, p);
    lemma_cell_index(w, h, cell_of(p));
    assert(d <= head);
    assert forall|c: Cell| on_grid(w, h, c) implies #[trigger] noted(w, after, c) == (if c
        == cell_of(p) {
        (d + 1) as u32
    } else {
        noted(w, before, c)
    }) by {
        lemma_cell_index(w, h, c);
    }
    assert forall|i: int| 0 <= i < queue.len() implies #[trigger] queue[i] != p by {
        assert(noted(w, before, cell_of(queue[i])) <= i);
    }
    assert forall|i: int| 0 <= i < queue.len() implies noted(w, after, cell_of(#[trigger] queue[i]))
        == noted(w, before, cell_of(queue[i])) by {
        assert(queue[i] != p);
        assert(on_grid(w, h, cell_of(queue[i])));
    }
    assert forall|i: int| 0 <= i < more.len() implies on_grid(w, h, cell_of(#[trigger] more[i])) by {
        if i < queue.len() {
            assert(more[i] == queue[i]);
        }
    }
    assert forall|i: int, j: int| 0 <= i < j < more.len() implies #[trigger] more[i]
        != #[trigger] more[j] by {
        assert(more[i] == queue[i]);
        if j < queue.len() {
            assert(more[j] == queue[j]);
        }
    }
    lemma_walk_step(map.floor(), d as nat, goal, cell_of(queue[head]), cell_of(p));
    assert forall|i: int| #![trigger more[i]] 0 <= i < more.len() implies noted(
        w,
        after,
        cell_of(more[i]),
    ) <= i && walk(map.floor(), noted(w, after, cell_of(more[i])) as nat, goal, cell_of(more[i])) by {
        if i < queue.len() {
            assert(more[i] == queue[i]);
        }
    }
    assert forall|i: int, j: int| 0 <= i <= j < more.len() implies noted(
        w,
        after,
        cell_of(#[trigger] more[i]),
    ) <= noted(w, after, cell_of(#[trigger] more[j])) by {
        if i < queue.len() {
            assert(more[i] == queue[i]);
        }
        if j < queue.len() {
            assert(more[j] == queue[j]);
        } else if i < queue.len() {
            if i < head {
                assert(noted(w, before, cell_of(queue[i])) <= noted(
                    w,
                    before,
                    cell_of(queue[head]),
                ));
            } else {
                assert(noted(w, before, cell_of(queue[i])) <= noted(
                    w,
                    before,
                    cell_of(queue[head]),
                ) + 1);
            }
        }
    }
    assert forall|i: int, j: int|
        head <= i < more.len() && head <= j < more.len() implies noted(
        w,
        after,
        cell_of(#[trigger] more[j]),
    ) <= noted(w, after, cell_of(#[trigger] more[i])) + 1 by {
        if i < queue.len() {
            assert(more[i] == queue[i]);
            assert(noted(w, before, cell_of(queue[head])) <= noted(w, before, cell_of(queue[i])));
        }
        if j < queue.len() {
            assert(more[j] == queue[j]);
            assert(noted(w, before, cell_of(queue[j])) <= noted(w, before, cell_of(queue[head]))
                + 1);
        }
    }
    assert forall|c: Cell|
        on_grid(w, h, c) && #[trigger] noted(w, after, c) != UNREACHABLE implies met(more, c) by {
        if c == cell_of(p) {
            assert(cell_of(more[queue.len() as int]) == c);
        } else {
            assert(noted(w, before, c) != UNREACHABLE);
            assert(met(queue, c));
            let i = choose|i: int| 0 <= i < queue.len() && cell_of(#[trigger] queue[i]) == c;
            assert(cell_of(more[i]) == c);
        }
    }
    assert forall|i: int, c: Cell|
        0 <= i < head && #[trigger] adjacent(cell_of(more[i]), c) && map.floor().contains(
            c,
        ) implies in_time(w, after, cell_of(more[i]), c) by {
        assert(more[i] == queue[i]);
        assert(adjacent(cell_of(queue[i]), c));
        assert(in_time(w, before, cell_of(queue[i]), c));
        assert(on_grid(w, h, c));
        assert(noted(w, after, c) == noted(w, before, c));
    }
}

/// The cells in the queue are distinct cells of the grid that were met.
proof fn lemma_queue_fits(
    map: TileMap,
    goal: Cell,
    distances: Seq<u32>,
    queue: Seq<(u32, u32)>,
    head: int,
)
    requires
        map.wf(),
        searching(map, goal, distances, queue, head),
    ensures
        queue.len() <= map.width * map.height,
        forall|i: int|
            #![trigger queue[i]]
            0 <= i < queue.len() ==> on_grid(
                map.width as int,
                map.height as int,
                cell_of(queue[i]),
            ) && noted(map.width as int, distances, cell_of(queue[i])) != UNREACHABLE,
{
    reveal(searching);
    lemma_distinct_cells_fit(map.width as int, map.height as int, queue);
}

/// What was met in time stays so, as long as no note of a met cell is changed.
proof fn lemma_in_time_stays(
    map: TileMap,
    before: Seq<u32>,
    after: Seq<u32>,
    from: Cell,
    c: Cell,
)
    requires
        on_grid(map.width as int, map.height as int, from),
        noted(map.width as int, before, from) != UNREACHABLE,
        forall|d: Cell|
            #![trigger noted(map.width as int, after, d)]
            on_grid(map.width as int, map.height as int, d) && noted(
                map.width as int,
                before,
                d,
            ) != UNREACHABLE ==> noted(map.width as int, after, d) == noted(
                map.width as int,
                before,
                d,
            ),
    ensures
        on_grid(map.width as int, map.height as int, c) && in_time(
            map.width as int,
            before,
            from,
            c,
        ) ==> in_time(map.width as int, after, from, c),
        noted(map.width as int, after, from) != UNREACHABLE,
{
    assert(noted(map.width as int, after, from) == noted(map.width as int, before, from));
    if on_grid(map.width as int, map.height as int, c) && in_time(
        map.width as int,
        before,
        from,
        c,
    ) {
        assert(noted(map.width as int, after, c) == noted(map.width as int, before, c));
    }
}

/// The head of the queue has been looked at when its four neighbors have.
proof fn lemma_advance(
    map: TileMap,
    goal: Cell,
    distances: Seq<u32>,
    queue: Seq<(u32, u32)>,
    head: int,
)
    requires
        searching(map, goal, distances, queue, head),
        settled(map, distances, queue, head),
        0 <= head < queue.len(),
        forall|k: int|
            0 <= k < 4 && map.floor().contains(#[trigger] neighbors(cell_of(queue[head]))[k])
                ==> in_time(
                map.width as int,
                distances,
                cell_of(queue[head]),
                neighbors(cell_of(queue[head]))[k],
            ),
    ensures
        searching(map, goal, distances, queue, head + 1),
        settled(map, distances, queue, head + 1),
{
    reveal(searching);
    reveal(settled);
    let here = cell_of(queue[head]);
    assert forall|i: int, c: Cell|
        0 <= i < head + 1 && #[trigger] adjacent(cell_of(queue[i]), c) && map.floor().contains(
            c,
        ) implies in_time(map.width as int, distances, cell_of(queue[i]), c) by {
        if i == head {
            assert(c == neighbors(here)[0] || c == neighbors(here)[1] || c == neighbors(here)[2]
                || c == neighbors(here)[3]);
        }
    }
}

impl FlowField {
    /// Looks at the cell at the head of the queue: its neighbors north, east, south and
    /// west, in this order.
    fn expand(
        map: &TileMap,
        distances: &mut Vec<u32>,
        queue: &mut Vec<(u32, u32)>,
        head: usize,
        goal: Ghost<Cell>,
    )
        requires
            map.wf(),
            head < old(queue)@.len(),
            searching(*map, goal@, old(distances)@, old(queue)@, head as int),
            settled(*map, old(distances)@, old(queue)@, head as int),
        ensures
            searching(*map, goal@, final(distances)@, final(queue)@, head + 1),
            settled(*map, final(distances)@, final(queue)@, head + 1),
            old(queue)@.len() <= final(queue)@.len(),
            head < map.width * map.height,
    {
        let ghost w = map.width as int;
        let ghost h = map.height as int;
        let (x, y) = queue[head];
        let ghost here: Cell = (x as int, y as int);
        let ghost north: Cell = (x as int, y - 1);
        let ghost east: Cell = (x + 1, y as int);
        let ghost south: Cell = (x as int, y + 1);
        let ghost west: Cell = (x - 1, y as int);
        let ghost q0 = queue@;
        proof {
            lemma_queue_fits(*map, goal@, distances@, queue@, head as int);
            assert(cell_of(q0[head as int]) == here);
        }
        if y > 0 {
            Self::visit(map, distances, queue, head, x, y - 1, goal);
        }
        let ghost q1 = queue@;
        let ghost d1 = distances@;
        proof {
            assert(q1.subrange(0, q0.len() as int)[head as int] == q1[head as int]);
            lemma_queue_fits(*map, goal@, d1, q1, head as int);
        }
        if x + 1 < map.width {
            Self::visit(map, distances, queue, head, x + 1, y, goal);
        }
        let ghost q2 = queue@;
        let ghost d2 = distances@;
        proof {
            assert(q2.subrange(0, q1.len() as int)[head as int] == q2[head as int]);
            lemma_in_time_stays(*map, d1, d2, here, north);
            lemma_queue_fits(*map, goal@, d2, q2, head as int);
        }
        if y + 1 < map.height {
            Self::visit(map, distances, queue, head, x, y + 1, goal);
        }
        let ghost q3 = queue@;
        let ghost d3 = distances@;
        proof {
            assert(q3.subrange(0, q2.len() as int)[head as int] == q3[head as int]);
            lemma_in_time_stays(*map, d2, d3, here, north);
            lemma_in_time_stays(*map, d2, d3, here, east);
            lemma_queue_fits(*map, goal@, d3, q3, head as int);
        }
        if x > 0 {
            Self::visit(map, distances, queue, head, x - 1, y, goal);
        }
        proof {
            let q4 = queue@;
            let d4 = distances@;
            assert(q4.subrange(0, q3.len() as int)[head as int] == q4[head as int]);
            lemma_in_time_stays(*map, d3, d4, here, north);
            lemma_in_time_stays(*map, d3, d4, here, east);
            lemma_in_time_stays(*map, d3, d4, here, south);
            assert(neighbors(here) == seq![north, east, south, west]);
            lemma_advance(*map, goal@, d4, q4, head as int);
        }
    }
}

/// When every met cell has been looked at, each cell that can be walked to has been met,
/// at a distance no longer than the walk.
proof fn lemma_search_complete(
    map: TileMap,
    goal: Cell,
    distances: Seq<u32>,
    queue: Seq<(u32, u32)>,
    n: nat,
    c: Cell,
)
    requires
        map.wf(),
        queue.len() >= 1,
        searching(map, goal, distances, queue, queue.len() as int),
        settled(map, distances, queue, queue.len() as int),
        0 <= goal.0 <= u32::MAX,
        0 <= goal.1 <= u32::MAX,
        walk(map.floor(), n, goal, c),
    ensures
        on_grid(map.width as int, map.height as int, c),
        noted(map.width as int, distances, c) != UNREACHABLE,
        noted(map.width as int, distances, c) <= n,
    decreases n,
{
    reveal(searching);
    reveal(settled);
    let w = map.width as int;
    let h = map.height as int;
    lemma_distinct_cells_fit(w, h, queue);
    if n == 0 {
        assert(cell_of(queue[0]) == goal);
    } else {
        let prev = choose|prev: Cell| #[trigger]
            adjacent(prev, c) && walk(map.floor(), (n - 1) as nat, goal, prev);
        lemma_search_complete(map, goal, distances, queue, (n - 1) as nat, prev);
        assert(met(queue, prev));
        let i = choose|i: int| 0 <= i < queue.len() && cell_of(#[trigger] queue[i]) == prev;
        assert(adjacent(cell_of(queue[i]), c));
        assert(in_time(w, distances, cell_of(queue[i]), c));
    }
}

impl FlowField {
    /// 4-connected BFS from `goal` across `Floor` tiles. Walls block; the
    /// goal itself is seeded at distance 0 regardless of its own tile
    /// (game code always passes a Floor goal, but the algorithm doesn't
    /// require it). Returns a fully-populated field; never fails.
    pub fn compute(map: &TileMap, goal: (u32, u32)) -> (field: FlowField)
        requires
            map.wf(),
        ensures
            field.measures(*map, cell_of(goal)),
    {
        let ghost w = map.width as int;
        let ghost h = map.height as int;
        let total: usize = (map.width * map.height) as usize;
        let mut distances: Vec<u32> = vec![UNREACHABLE;total];
        let mut queue: Vec<(u32, u32)> = Vec::new();
        if goal.0 < map.width && goal.1 < map.height {
            proof {
                lemma_cell_index(w, h, cell_of(goal));
            }
            let start: usize = (goal.1 * map.width + goal.0) as usize;
            distances.set(start, 0);
            queue.push(goal);
            assert(walk(map.floor(), 0, cell_of(goal), cell_of(goal)));
            assert forall|c: Cell| on_grid(w, h, c) && #[trigger] noted(w, distances@, c)
                != UNREACHABLE implies met(queue@, c) by {
                lemma_cell_index(w, h, c);
                assert(cell_of(queue@[0]) == cell_of(goal));
            }
        } else {
            proof {
                assert forall|c: Cell| on_grid(w, h, c) implies #[trigger] noted(w, distances@, c)
                    == UNREACHABLE by {
                    lemma_cell_index(w, h, c);
                }
            }
        }
        proof {
            reveal(searching);
            reveal(settled);
        }
        let mut head: usize = 0;
        while head < queue.len()
            invariant
                map.wf(),
                w == map.width,
                h == map.height,
                head <= queue.len(),
                queue.len() >= 1 <==> on_grid(w, h, cell_of(goal)),
                searching(*map, cell_of(goal), distances@, queue@, head as int),
                settled(*map, distances@, queue@, head as int),
            decreases map.width * map.height - head,
        {
            Self::expand(map, &mut distances, &mut queue, head, Ghost(cell_of(goal)));
            proof {
                lemma_queue_fits(*map, cell_of(goal), distances@, queue@, head + 1);
            }
            head = head + 1;
        }
        proof {
            reveal(searching);
        }
        let field = FlowField { width: map.width, height: map.height, goal, distances };
        proof {
            assert forall|c: Cell| #![trigger field.at(c)] on_grid(w, h, c) implies {
                if on_grid(w, h, cell_of(goal)) && reaches(map.floor(), cell_of(goal), c) {
                    field.at(c) != UNREACHABLE && is_distance(
                        map.floor(),
                        cell_of(goal),
                        c,
                        field.at(c) as int,
                    )
                } else {
                    field.at(c) == UNREACHABLE
                }
            } by {
                assert(field.at(c) == noted(w, distances@, c));
                if field.at(c) != UNREACHABLE {
                    assert(met(queue@, c));
                    let i = choose|i: int| 0 <= i < queue@.len() && cell_of(#[trigger] queue@[i]) == c;
                    assert(walk(map.floor(), field.at(c) as nat, cell_of(goal), c));
                }
                if on_grid(w, h, cell_of(goal)) {
                    assert forall|n: nat| #[trigger]
                        walk(map.floor(), n, cell_of(goal), c) implies field.at(c) != UNREACHABLE
                        && field.at(c) <= n by {
                        lemma_search_complete(
                            *map,
                            cell_of(goal),
                            distances@,
                            queue@,
                            n,
                            c,
                        );
                    }
                }
            }
        }
        field
    }
}

/// The closest of the neighbors looked at so far that is closer to the goal than `here`,
/// with the distance of that neighbor.
pub open spec fn closest(
    field: FlowField,
    from: Cell,
    looked_at: int,
    best: Option<(u32, u32, u32)>,
) -> bool {
    match best {
        None => forall|k: int|
            0 <= k < looked_at ==> field.at(#[trigger] neighbors(from)[k]) >= field.at(from),
        Some((x, y, d)) => d == field.at((x as int, y as int)) && exists|k: int|
            0 <= k < looked_at && #[trigger] neighbors(from)[k] == (x as int, y as int)
                && field.is_best_step(from, k, looked_at),
    }
}

impl FlowField {
    /// Whether the `k`-th neighbor of a cell is the best step among the first `limit`
    /// ones: it is closer to the goal than the cell, as close as any of them, and the
    /// first that is.
    pub open spec fn is_best_step(self, from: Cell, k: int, limit: int) -> bool {
        &&& self.at(neighbors(from)[k]) < self.at(from)
        &&& forall|j: int|
            0 <= j < limit ==> self.at(neighbors(from)[k]) <= self.at(#[trigger] neighbors(from)[j])
        &&& forall|j: int|
            0 <= j < k ==> self.at(neighbors(from)[k]) < self.at(#[trigger] neighbors(from)[j])
    }

    pub fn distance_at(&self, x: u32, y: u32) -> (d: u32)
        requires
            self.wf(),
        ensures
            d == self.at((x as int, y as int)),
    {
        if x >= self.width || y >= self.height {
            return UNREACHABLE;
        }
        proof {
            lemma_cell_index(self.width as int, self.height as int, (x as int, y as int));
            assert(0 <= y * self.width) by (nonlinear_arith);
        }
        self.distances[(y * self.width + x) as usize]
    }

    /// Takes one neighbor into account.
    fn consider(
        &self,
        here: u32,
        best: Option<(u32, u32, u32)>,
        x: u32,
        y: u32,
        from: Ghost<Cell>,
        k: Ghost<int>,
    ) -> (better: Option<(u32, u32, u32)>)
        requires
            self.wf(),
            here == self.at(from@),
            0 <= k@ < 4,
            neighbors(from@)[k@] == (x as int, y as int),
            closest(*self, from@, k@, best),
        ensures
            closest(*self, from@, k@ + 1, better),
    {
        let d: u32 = self.distance_at(x, y);
        if d >= here {
            return best;
        }
        match best {
            None => {
                proof {
                    assert(self.is_best_step(from@, k@, k@ + 1));
                }
                Some((x, y, d))
            },
            Some((bx, by, bd)) => {
                proof {
                    let b = choose|b: int|
                        0 <= b < k@ && #[trigger] neighbors(from@)[b] == (bx as int, by as int)
                            && self.is_best_step(from@, b, k@);
                    assert(self.at(neighbors(from@)[b]) == bd);
                    if d < bd {
                        assert(self.is_best_step(from@, k@, k@ + 1));
                    } else {
                        assert(self.is_best_step(from@, b, k@ + 1));
                    }
                }
                if d < bd {
                    Some((x, y, d))
                } else {
                    Some((bx, by, bd))
                }
            },
        }
    }

    /// Whether a step is the one to take from a cell: none from a cell that is out of reach
    /// or has no neighbor that is nearer, otherwise the best one.
    pub open spec fn is_next_step(self, from: Cell, step: Option<(u32, u32)>) -> bool {
        match step {
            None => self.at(from) == UNREACHABLE || forall|k: int|
                0 <= k < 4 ==> self.at(#[trigger] neighbors(from)[k]) >= self.at(from),
            Some(p) => self.at(from) != UNREACHABLE && exists|k: int|
                0 <= k < 4 && #[trigger] neighbors(from)[k] == cell_of(p) && self.is_best_step(
                    from,
                    k,
                    4,
                ),
        }
    }

    /// Returns the neighbor tile (4-connected) closest to the goal — the
    /// next step an enemy at `(x, y)` should take. Ties resolve in the order
    /// N, E, S, W. Returns `None` at the goal itself, when standing on an
    /// unreachable tile, or when no neighbor has a strictly smaller distance.
    pub fn next_step_from(&self, x: u32, y: u32) -> (step: Option<(u32, u32)>)
        requires
            self.wf(),
        ensures
            self.is_next_step((x as int, y as int), step),
    {
        let ghost from: Cell = (x as int, y as int);
        let here: u32 = self.distance_at(x, y);
        if here == UNREACHABLE || here == 0 {
            return None;
        }
        let mut best: Option<(u32, u32, u32)> = None;
        if y > 0 {
            best = self.consider(here, best, x, y - 1, Ghost(from), Ghost(0));
        }
        assert(closest(*self, from, 1, best));
        if x + 1 < self.width {
            best = self.consider(here, best, x + 1, y, Ghost(from), Ghost(1));
        } else {
            proof {
                self.lemma_outside(from, 1, best);
            }
        }
        if y + 1 < self.height {
            best = self.consider(here, best, x, y + 1, Ghost(from), Ghost(2));
        } else {
            proof {
                self.lemma_outside(from, 2, best);
            }
        }
        if x > 0 {
            best = self.consider(here, best, x - 1, y, Ghost(from), Ghost(3));
        } else {
            proof {
                self.lemma_outside(from, 3, best);
            }
        }
        match best {
            None => None,
            Some((bx, by, _)) => Some((bx, by)),
        }
    }

    /// A neighbor outside the grid is no step.
    proof fn lemma_outside(self, from: Cell, k: int, best: Option<(u32, u32, u32)>)
        requires
            0 <= k < 4,
            !on_grid(self.width as int, self.height as int, neighbors(from)[k]),
            closest(self, from, k, best),
        ensures
            closest(self, from, k + 1, best),
    {
        if let Some((bx, by, bd)) = best {
            let b = choose|b: int|
                0 <= b < k && #[trigger] neighbors(from)[b] == (bx as int, by as int)
                    && self.is_best_step(from, b, k);
            assert(self.is_best_step(from, b, k + 1));
        }
    }
}

/// On the field of a map, the step away from every reachable cell but the goal exists,
/// leads to a neighboring cell and brings the goal exactly one step nearer.
pub proof fn law_steps_descend(field: FlowField, map: TileMap, goal: Cell, from: Cell, k: int)
    requires
        field.measures(map, goal),
        on_grid(map.width as int, map.height as int, goal),
        on_grid(map.width as int, map.height as int, from),
        reaches(map.floor(), goal, from),
        from != goal,
    ensures
        exists|j: int|
            0 <= j < 4 && field.at(#[trigger] neighbors(from)[j]) == field.at(from) - 1,
        0 <= k < 4 && field.is_best_step(from, k, 4) ==> field.at(neighbors(from)[k]) == field.at(
            from,
        ) - 1 && adjacent(from, neighbors(from)[k]),
{
    let open = map.floor();
    let d = field.at(from) as nat;
    assert(is_distance(open, goal, from, d as int));
    assert(d > 0);
    let prev = choose|prev: Cell| #[trigger]
        adjacent(prev, from) && walk(open, (d - 1) as nat, goal, prev);
    assert(reaches(open, goal, prev));
    assert(on_grid(map.width as int, map.height as int, prev)) by {
        if d > 1 {
            assert(open.contains(prev));
        }
    }
    assert(is_distance(open, goal, prev, field.at(prev) as int));
    assert(field.at(prev) <= d - 1);
    if field.at(prev) < d - 1 {
        lemma_walk_step(open, field.at(prev) as nat, goal, prev, from);
        assert(walk(open, (field.at(prev) + 1) as nat, goal, from));
    }
    assert(prev == neighbors(from)[0] || prev == neighbors(from)[1] || prev == neighbors(from)[2]
        || prev == neighbors(from)[3]);
    if 0 <= k < 4 && field.is_best_step(from, k, 4) {
        let next = neighbors(from)[k];
        assert(field.at(next) <= field.at(prev));
        assert(adjacent(next, from));
        assert(on_grid(map.width as int, map.height as int, next));
        assert(is_distance(open, goal, next, field.at(next) as int));
        if field.at(next) < d - 1 {
            lemma_walk_step(open, field.at(next) as nat, goal, next, from);
            assert(walk(open, (field.at(next) + 1) as nat, goal, from));
        }
    }
}

/// The goal is at distance zero, and nothing else is.
pub proof fn law_goal_is_at_zero(field: FlowField, map: TileMap, goal: Cell, c: Cell)
    requires
        field.measures(map, goal),
        on_grid(map.width as int, map.height as int, goal),
    ensures
        field.at(c) == 0 <==> c == goal,
{
    assert(walk(map.floor(), 0, goal, goal));
    assert(reaches(map.floor(), goal, goal));
    assert(is_distance(map.floor(), goal, goal, field.at(goal) as int));
}

/// Walls other than the goal are unreachable.
pub proof fn law_walls_are_unreachable(field: FlowField, map: TileMap, goal: Cell, c: Cell)
    requires
        field.measures(map, goal),
        map.tile(c) == Tile::Wall,
        c != goal,
    ensures
        field.at(c) == UNREACHABLE,
{
    if on_grid(map.width as int, map.height as int, c) && reaches(map.floor(), goal, c) {
        let n = choose|n: nat| walk(map.floor(), n, goal, c);
        assert(n > 0);
        assert(map.floor().contains(c));
    }
}

/// The same map and goal give the same distances.
pub proof fn law_field_is_deterministic(a: FlowField, b: FlowField, map: TileMap, goal: Cell)
    requires
        a.measures(map, goal),
        b.measures(map, goal),
    ensures
        a.distances@ == b.distances@,
{
    let w = map.width as int;
    let h = map.height as int;
    assert forall|i: int| 0 <= i < a.distances@.len() implies a.distances@[i] == b.distances@[i] by {
        lemma_index_cell(w, h, i);
        let c: Cell = (i % w, i / w);
        assert(a.at(c) == a.distances@[i]);
        assert(b.at(c) == b.distances@[i]);
        if on_grid(w, h, goal) && reaches(map.floor(), goal, c) {
            assert(is_distance(map.floor(), goal, c, a.at(c) as int));
            assert(is_distance(map.floor(), goal, c, b.at(c) as int));
            assert(walk(map.floor(), a.at(c) as nat, goal, c));
            assert(walk(map.floor(), b.at(c) as nat, goal, c));
        }
    }
    assert(a.distances@ =~= b.distances@);
}

/// Whether two cells lie side by side or one above the other.
pub open spec fn beside(a: Cell, b: Cell) -> bool {
    ||| a.1 == b.1 && (a.0 - b.0 == 1 || b.0 - a.0 == 1)
    ||| a.0 == b.0 && (a.1 - b.1 == 1 || b.1 - a.1 == 1)
}

/// What the numbers of a field mean. The goal has the number zero. From a cell that has a
/// number one can step onto any floor beside it, which has a number at most one higher; and
/// every other cell that has a number is floor and lies beside one whose number is one
/// lower. Outside the map no cell has one.
pub proof fn law_numbers_count_steps(field: FlowField, map: TileMap, goal: Cell, c: Cell, next: Cell)
    requires
        field.measures(map, goal),
        on_grid(map.width as int, map.height as int, goal),
    ensures
        field.at(goal) == 0,
        field.at(c) != u32::MAX && beside(c, next) && map.tile(next) == Tile::Floor ==> field.at(
            next,
        ) != u32::MAX && field.at(next) <= field.at(c) + 1,
        field.at(c) != u32::MAX && c != goal ==> map.tile(c) == Tile::Floor && exists|b: Cell|
            #![trigger field.at(b)]
            beside(b, c) && field.at(b) == field.at(c) - 1,
        !on_grid(map.width as int, map.height as int, c) ==> field.at(c) == u32::MAX,
{
    let open = map.floor();
    law_goal_is_at_zero(field, map, goal, goal);
    if field.at(c) != u32::MAX {
        assert(reaches(open, goal, c));
        let d = field.at(c) as nat;
        assert(is_distance(open, goal, c, d as int));
        if beside(c, next) && map.tile(next) == Tile::Floor {
            assert(open.contains(next));
            assert(adjacent(c, next));
            lemma_walk_step(open, d, goal, c, next);
            assert(reaches(open, goal, next));
            assert(field.at(next) != UNREACHABLE);
            assert(is_distance(open, goal, next, field.at(next) as int));
        }
        if c != goal {
            law_steps_descend(field, map, goal, c, 0);
            let j = choose|j: int|
                0 <= j < 4 && field.at(#[trigger] neighbors(c)[j]) == field.at(c) - 1;
            let b = neighbors(c)[j];
            assert(beside(b, c) && field.at(b) == field.at(c) - 1);
            let n = choose|n: nat| walk(open, n, goal, c);
            assert(open.contains(c));
        }
    }
}

/// Where the next step leads: to the cell above, to the right, below or to the left, whichever
/// has the lowest number, if it is lower than the cell's own; of several the first in this
/// order. From a cell without a number, or where none is lower, there is no step.
pub proof fn law_steps_go_downhill(field: FlowField, from: Cell, step: Option<(u32, u32)>)
    requires
        field.is_next_step(from, step),
    ensures
        ({
            let up = field.at((from.0, from.1 - 1));
            let right = field.at((from.0 + 1, from.1));
            let down = field.at((from.0, from.1 + 1));
            let left = field.at((from.0 - 1, from.1));
            let here = field.at(from);
            match step {
                None => here == u32::MAX || (up >= here && right >= here && down >= here && left
                    >= here),
                Some(p) => {
                    let to = (p.0 as int, p.1 as int);
                    let n = field.at(to);
                    &&& here != u32::MAX
                    &&& n < here
                    &&& n <= up && n <= right && n <= down && n <= left
                    &&& n == up ==> to == (from.0, from.1 - 1)
                    &&& n < up && n == right ==> to == (from.0 + 1, from.1)
                    &&& n < up && n < right && n == down ==> to == (from.0, from.1 + 1)
                    &&& n < up && n < right && n < down ==> to == (from.0 - 1, from.1)
                },
            }
        }),
{
    let ns = neighbors(from);
    assert(ns[0] == (from.0, from.1 - 1));
    assert(ns[1] == (from.0 + 1, from.1));
    assert(ns[2] == (from.0, from.1 + 1));
    assert(ns[3] == (from.0 - 1, from.1));
    if let Some(p) = step {
        let k = choose|k: int|
            0 <= k < 4 && #[trigger] neighbors(from)[k] == cell_of(p) && field.is_best_step(
                from,
                k,
                4,
            );
        assert(field.at(ns[k]) <= field.at(ns[0]));
        assert(field.at(ns[k]) <= field.at(ns[1]));
        assert(field.at(ns[k]) <= field.at(ns[2]));
        assert(field.at(ns[k]) <= field.at(ns[3]));
        if k > 0 {
            assert(field.at(ns[k]) < field.at(ns[0]));
        }
        if k > 1 {
            assert(field.at(ns[k]) < field.at(ns[1]));
        }
        if k > 2 {
            assert(field.at(ns[k]) < field.at(ns[2]));
        }
    }
}

} // verus!
