//! What holds of every generated map.

use vstd::arithmetic::power2::{lemma_pow2_pos, lemma_pow2_unfold, pow2};
use vstd::prelude::*;

use crate::procgen::bsp::{
    can_cut, cut, cut_bounds, cut_direction, generated, halves, inner, inside, is_leaf, layout,
    map_layout, placed, preferred_cut, room_size, whole, Layout, Rect,
};
use crate::procgen::carve::{corridor_cells, hits, on_corridor, room_cells};
use crate::procgen::flow::{FlowField, UNREACHABLE};
use crate::procgen::grid::{
    lemma_reaches_trans, lemma_reaches_widen, lemma_walk_step, reaches, walk, Cell,
};
use crate::procgen::tilemap::{
    cell_index, lemma_cell_index, on_grid, MapParams, Room, Tile, TileMap,
};
use crate::rng::{answer_coin, Draw, RngState};

verus! {

/// Whether the parameters leave space for a room: one cell of floor inside the outer
/// walls, and rooms of at least that size.
pub open spec fn roomy(p: MapParams) -> bool {
    p.width >= 3 && p.height >= 3 && p.min_room_size >= 1
}

/// Whether two rooms keep their distance: two rows or columns, one of padding for each of
/// them, lie between them.
pub open spec fn apart(r: Room, s: Room) -> bool {
    ||| r.x + r.w + 2 <= s.x
    ||| s.x + s.w + 2 <= r.x
    ||| r.y + r.h + 2 <= s.y
    ||| s.y + s.h + 2 <= r.y
}

/// Whether a cell lies inside a piece, off its edge.
pub open spec fn interior(rect: Rect, c: Cell) -> bool {
    rect.x < c.0 < rect.x + rect.w - 1 && rect.y < c.1 < rect.y + rect.h - 1
}

/// Whether a room is not empty and lies inside a piece, off its edge.
pub open spec fn room_interior(rect: Rect, r: Room) -> bool {
    &&& 0 < r.w
    &&& 0 < r.h
    &&& rect.x < r.x
    &&& r.x + r.w < rect.x + rect.w
    &&& rect.y < r.y
    &&& r.y + r.h < rect.y + rect.h
}

/// A drawn size fits, and is at least one where that much is free and asked for.
proof fn lemma_room_size(g: RngState, available: u32, min: u32, max: u32)
    ensures
        room_size(g, available, min, max).0 <= available,
        available >= 1 && min >= 1 ==> room_size(g, available, min, max).0 >= 1,
{
}

/// The room of a piece lies inside it, off its edge, and is not empty.
proof fn lemma_placed(g: RngState, rect: Rect, p: MapParams)
    requires
        inside(rect, p),
        rect.w >= 3,
        rect.h >= 3,
        p.min_room_size >= 1,
    ensures
        room_interior(rect, placed(g, rect, p).0),
{
    let (w, g1) = room_size(g, inner(rect.w), p.min_room_size, p.max_room_size);
    lemma_room_size(g, inner(rect.w), p.min_room_size, p.max_room_size);
    lemma_room_size(g1, inner(rect.h), p.min_room_size, p.max_room_size);
}

/// The halves of a piece lie on the map, are large enough for a room and do not overlap.
proof fn lemma_halves(rect: Rect, p: MapParams, horizontal: bool, at: u32)
    requires
        inside(rect, p),
        rect.w >= 3,
        rect.h >= 3,
        p.min_room_size >= 1,
        can_cut(rect, p, horizontal),
        cut_bounds(rect, p, horizontal).0 <= at <= cut_bounds(rect, p, horizontal).1,
    ensures
        ({
            let (a, b) = halves(rect, horizontal, at);
            &&& inside(a, p)
            &&& inside(b, p)
            &&& a.w >= 3
            &&& a.h >= 3
            &&& b.w >= 3
            &&& b.h >= 3
            &&& a.x == rect.x
            &&& a.y == rect.y
            &&& b.x + b.w == rect.x + rect.w
            &&& b.y + b.h == rect.y + rect.h
            &&& horizontal ==> a.w == rect.w && b.x == rect.x && b.y == a.y + a.h
            &&& !horizontal ==> a.h == rect.h && b.y == rect.y && b.x == a.x + a.w
        }),
{
}

/// A straight corridor along a row can be walked.
proof fn lemma_walk_row(open: Set<Cell>, y: int, from: int, to: int)
    requires
        forall|x: int|
            (from <= x <= to || to <= x <= from) ==> #[trigger] open.contains((x, y)),
    ensures
        reaches(open, (from, y), (to, y)),
    decreases if from <= to { to - from } else { from - to },
{
    if from == to {
        assert(walk(open, 0, (from, y), (to, y)));
    } else {
        let via = if from < to { to - 1 } else { to + 1 };
        lemma_walk_row(open, y, from, via);
        let n = choose|n: nat| walk(open, n, (from, y), (via, y));
        lemma_walk_step(open, n, (from, y), (via, y), (to, y));
    }
}

/// A straight corridor along a column can be walked.
proof fn lemma_walk_column(open: Set<Cell>, x: int, from: int, to: int)
    requires
        forall|y: int|
            (from <= y <= to || to <= y <= from) ==> #[trigger] open.contains((x, y)),
    ensures
        reaches(open, (x, from), (x, to)),
    decreases if from <= to { to - from } else { from - to },
{
    if from == to {
        assert(walk(open, 0, (x, from), (x, to)));
    } else {
        let via = if from < to { to - 1 } else { to + 1 };
        lemma_walk_column(open, x, from, via);
        let n = choose|n: nat| walk(open, n, (x, from), (x, via));
        lemma_walk_step(open, n, (x, from), (x, via), (x, to));
    }
}

/// Any two cells of a room reach each other inside it.
proof fn lemma_walk_room(open: Set<Cell>, room: Room, a: Cell, b: Cell)
    requires
        room_cells(room).subset_of(open),
        room.covers(a),
        room.covers(b),
    ensures
        reaches(open, a, b),
{
    let corner: Cell = (b.0, a.1);
    assert forall|x: int| (a.0 <= x <= b.0 || b.0 <= x <= a.0) implies #[trigger] open.contains(
        (x, a.1),
    ) by {
        assert(room_cells(room).contains((x, a.1)));
    }
    assert forall|y: int| (a.1 <= y <= b.1 || b.1 <= y <= a.1) implies #[trigger] open.contains(
        (b.0, y),
    ) by {
        assert(room_cells(room).contains((b.0, y)));
    }
    lemma_walk_row(open, a.1, a.0, b.0);
    lemma_walk_column(open, b.0, a.1, b.1);
    lemma_reaches_trans(open, a, corner, b);
}

/// Every cell of a corridor is reached from where it starts.
proof fn lemma_walk_corridor(open: Set<Cell>, a: Cell, b: Cell, c: Cell)
    requires
        corridor_cells(a, b).subset_of(open),
        on_corridor(a, b, c),
    ensures
        reaches(open, a, c),
{
    let corner: Cell = (b.0, a.1);
    assert forall|x: int| (a.0 <= x <= b.0 || b.0 <= x <= a.0) implies #[trigger] open.contains(
        (x, a.1),
    ) by {
        assert(corridor_cells(a, b).contains((x, a.1)));
    }
    assert forall|y: int| (a.1 <= y <= b.1 || b.1 <= y <= a.1) implies #[trigger] open.contains(
        (b.0, y),
    ) by {
        assert(corridor_cells(a, b).contains((b.0, y)));
    }
    if c.1 == a.1 && (a.0 <= c.0 <= b.0 || b.0 <= c.0 <= a.0) {
        lemma_walk_row(open, a.1, a.0, c.0);
    } else {
        lemma_walk_row(open, a.1, a.0, b.0);
        lemma_walk_column(open, b.0, a.1, c.1);
        lemma_reaches_trans(open, a, corner, c);
    }
}

/// Whether what is built inside a piece is as it should be: at least one room; every
/// room inside the piece and apart from the others; all floor inside the piece and
/// reached from the middle of the first room.
pub open spec fn sound(rect: Rect, l: Layout) -> bool {
    &&& l.rooms.len() >= 1
    &&& l.hub == l.rooms[0].middle()
    &&& forall|k: int| 0 <= k < l.rooms.len() ==> room_interior(rect, #[trigger] l.rooms[k])
    &&& forall|j: int, k: int|
        0 <= j < k < l.rooms.len() ==> apart(#[trigger] l.rooms[j], #[trigger] l.rooms[k])
    &&& forall|c: Cell| #[trigger] l.cells.contains(c) ==> interior(rect, c)
    &&& forall|c: Cell| #[trigger] l.cells.contains(c) ==> reaches(l.cells, l.hub, c)
    &&& l.cells.contains(l.hub)
    &&& forall|k: int|
        0 <= k < l.rooms.len() ==> room_cells(#[trigger] l.rooms[k]).subset_of(l.cells)
}

/// What is built inside a piece that is large enough for a room is sound.
pub proof fn lemma_layout_sound(g: RngState, rect: Rect, p: MapParams, depth: nat)
    requires
        inside(rect, p),
        rect.w >= 3,
        rect.h >= 3,
        p.min_room_size >= 1,
    ensures
        sound(rect, layout(g, rect, p, depth)),
    decreases p.max_depth - depth,
{
    reveal(layout);
    let l = layout(g, rect, p, depth);
    if is_leaf(rect, p, depth) {
        let room = placed(g, rect, p).0;
        lemma_placed(g, rect, p);
        assert(l.rooms == seq![room]);
        assert(room.covers(room.middle()));
        assert forall|c: Cell| #[trigger] l.cells.contains(c) implies reaches(
            l.cells,
            l.hub,
            c,
        ) by {
            lemma_walk_room(l.cells, room, l.hub, c);
        }
    } else {
        let (preferred, g1) = preferred_cut(g, rect);
        let horizontal = cut_direction(rect, p, preferred);
        let (lo, hi) = cut_bounds(rect, p, horizontal);
        let at = g1.range32(lo, hi);
        let (a, b) = halves(rect, horizontal, at);
        let g2 = g1.after(Draw::Range32 { lo, hi });
        let first = layout(g2, a, p, depth + 1);
        let second = layout(first.rng, b, p, depth + 1);
        lemma_halves(rect, p, horizontal, at);
        lemma_layout_sound(g2, a, p, depth + 1);
        lemma_layout_sound(first.rng, b, p, depth + 1);
        lemma_join(rect, a, b, horizontal, first, second, l);
    }
}

/// Joining two sound halves gives a sound whole.
proof fn lemma_join(
    rect: Rect,
    a: Rect,
    b: Rect,
    horizontal: bool,
    first: Layout,
    second: Layout,
    l: Layout,
)
    requires
        sound(a, first),
        sound(b, second),
        a.x == rect.x,
        a.y == rect.y,
        b.x + b.w == rect.x + rect.w,
        b.y + b.h == rect.y + rect.h,
        horizontal ==> a.w == rect.w && b.x == rect.x && b.y == a.y + a.h,
        !horizontal ==> a.h == rect.h && b.y == rect.y && b.x == a.x + a.w,
        l.rooms == first.rooms + second.rooms,
        l.hub == first.hub,
        l.cells == first.cells.union(second.cells).union(corridor_cells(first.hub, second.hub)),
    ensures
        sound(rect, l),
{
    let corridor = corridor_cells(first.hub, second.hub);
    assert(first.cells.subset_of(l.cells));
    assert(second.cells.subset_of(l.cells));
    assert(corridor.subset_of(l.cells));
    assert(interior(a, first.hub));
    assert(interior(b, second.hub));
    assert forall|k: int| 0 <= k < l.rooms.len() implies room_interior(
        rect,
        #[trigger] l.rooms[k],
    ) by {
        if k < first.rooms.len() {
            assert(room_interior(a, first.rooms[k]));
        } else {
            assert(room_interior(b, second.rooms[k - first.rooms.len()]));
        }
    }
    assert forall|j: int, k: int| 0 <= j < k < l.rooms.len() implies apart(
        #[trigger] l.rooms[j],
        #[trigger] l.rooms[k],
    ) by {
        let n = first.rooms.len();
        if k < n {
            assert(apart(first.rooms[j], first.rooms[k]));
        } else if j >= n {
            assert(apart(second.rooms[j - n], second.rooms[k - n]));
        } else {
            assert(room_interior(a, first.rooms[j]));
            assert(room_interior(b, second.rooms[k - n]));
        }
    }
    assert forall|c: Cell| #[trigger] l.cells.contains(c) implies interior(rect, c) by {
        if first.cells.contains(c) {
            assert(interior(a, c));
        } else if second.cells.contains(c) {
            assert(interior(b, c));
        }
    }
    assert(reaches(l.cells, first.hub, second.hub)) by {
        lemma_walk_corridor(l.cells, first.hub, second.hub, second.hub);
    }
    assert forall|c: Cell| #[trigger] l.cells.contains(c) implies reaches(l.cells, l.hub, c) by {
        if first.cells.contains(c) {
            lemma_reaches_widen(first.cells, l.cells, first.hub, c);
        } else if second.cells.contains(c) {
            lemma_reaches_widen(second.cells, l.cells, second.hub, c);
            lemma_reaches_trans(l.cells, first.hub, second.hub, c);
        } else {
            lemma_walk_corridor(l.cells, first.hub, second.hub, c);
        }
    }
    assert forall|k: int| 0 <= k < l.rooms.len() implies room_cells(
        #[trigger] l.rooms[k],
    ).subset_of(l.cells) by {
        if k < first.rooms.len() {
            assert(room_cells(first.rooms[k]).subset_of(first.cells));
        } else {
            assert(room_cells(second.rooms[k - first.rooms.len()]).subset_of(second.cells));
        }
    }
}

/// Every piece gets a room, and the corridors start at the middle of the first.
proof fn lemma_layout_rooms(g: RngState, rect: Rect, p: MapParams, depth: nat)
    requires
        inside(rect, p),
        p.width >= 1,
        p.height >= 1,
        rect.w >= 1,
        rect.h >= 1,
    ensures
        ({
            let l = layout(g, rect, p, depth);
            forall|k: int|
                0 <= k < l.rooms.len() ==> (#[trigger] l.rooms[k]).x + l.rooms[k].w <= p.width
                    && l.rooms[k].y + l.rooms[k].h <= p.height
        }),
    decreases p.max_depth - depth,
{
    reveal(layout);
    let l = layout(g, rect, p, depth);
    if is_leaf(rect, p, depth) {
        let room = placed(g, rect, p).0;
        let (w, g1) = room_size(g, inner(rect.w), p.min_room_size, p.max_room_size);
        lemma_room_size(g, inner(rect.w), p.min_room_size, p.max_room_size);
        lemma_room_size(g1, inner(rect.h), p.min_room_size, p.max_room_size);
        assert(l.rooms == seq![room]);
    } else {
        let (preferred, g1) = preferred_cut(g, rect);
        let horizontal = cut_direction(rect, p, preferred);
        let (lo, hi) = cut_bounds(rect, p, horizontal);
        let (a, b) = halves(rect, horizontal, g1.range32(lo, hi));
        let g2 = g1.after(Draw::Range32 { lo, hi });
        let first = layout(g2, a, p, depth + 1);
        let second = layout(first.rng, b, p, depth + 1);
        lemma_layout_rooms(g2, a, p, depth + 1);
        lemma_layout_rooms(first.rng, b, p, depth + 1);
        assert forall|k: int| 0 <= k < l.rooms.len() implies (#[trigger] l.rooms[k]).x
            + l.rooms[k].w <= p.width && l.rooms[k].y + l.rooms[k].h <= p.height by {
            if k < first.rooms.len() {
                assert(l.rooms[k] == first.rooms[k]);
            } else {
                assert(l.rooms[k] == second.rooms[k - first.rooms.len()]);
            }
        }
    }
}

/// The corridors of a piece start at the middle of its first room.
proof fn lemma_layout_hub(g: RngState, rect: Rect, p: MapParams, depth: nat)
    ensures
        ({
            let l = layout(g, rect, p, depth);
            l.rooms.len() >= 1 && l.hub == l.rooms[0].middle()
        }),
    decreases p.max_depth - depth,
{
    reveal(layout);
    if !is_leaf(rect, p, depth) {
        let (preferred, g1) = preferred_cut(g, rect);
        let horizontal = cut_direction(rect, p, preferred);
        let (lo, hi) = cut_bounds(rect, p, horizontal);
        let (a, b) = halves(rect, horizontal, g1.range32(lo, hi));
        lemma_layout_hub(g1.after(Draw::Range32 { lo, hi }), a, p, depth + 1);
    }
}

/// A piece gets no more rooms than cutting it in two to the last can give.
proof fn lemma_layout_count(g: RngState, rect: Rect, p: MapParams, depth: nat)
    requires
        depth <= p.max_depth,
    ensures
        layout(g, rect, p, depth).rooms.len() <= pow2((p.max_depth - depth) as nat),
    decreases p.max_depth - depth,
{
    reveal(layout);
    lemma_pow2_pos((p.max_depth - depth) as nat);
    if !is_leaf(rect, p, depth) {
        let (a, b, g1) = cut(g, rect, p);
        let first = layout(g1, a, p, depth + 1);
        lemma_layout_count(g1, a, p, depth + 1);
        lemma_layout_count(first.rng, b, p, depth + 1);
        lemma_pow2_unfold((p.max_depth - depth) as nat);
    }
}

/// The least size of a room on a map of the given extent: the one that is asked for, or
/// all that the outer walls leave where that is less.
pub open spec fn least_size(p: MapParams, length: u32) -> u32 {
    if p.min_room_size <= inner(length) {
        p.min_room_size
    } else {
        inner(length)
    }
}

/// The greatest size of a room: the one that is asked for, unless that is below the least.
pub open spec fn greatest_size(p: MapParams) -> u32 {
    if p.min_room_size <= p.max_room_size {
        p.max_room_size
    } else {
        p.min_room_size
    }
}

/// Whether a room is neither too small nor too large.
pub open spec fn sized(p: MapParams, r: Room) -> bool {
    &&& least_size(p, p.width) <= r.w <= greatest_size(p)
    &&& least_size(p, p.height) <= r.h <= greatest_size(p)
}

/// Whether a piece has space for the smallest room.
spec fn spacious(rect: Rect, p: MapParams) -> bool {
    &&& least_size(p, p.width) <= inner(rect.w)
    &&& least_size(p, p.height) <= inner(rect.h)
}

/// A drawn size is neither too small nor too large.
proof fn lemma_drawn_size(g: RngState, available: u32, p: MapParams, length: u32)
    requires
        least_size(p, length) <= available <= inner(length),
    ensures
        least_size(p, length) <= room_size(
            g,
            available,
            p.min_room_size,
            p.max_room_size,
        ).0 <= greatest_size(p),
{
}

/// Both halves of a piece with space for the smallest room have it too.
proof fn lemma_cut_is_spacious(g: RngState, rect: Rect, p: MapParams)
    requires
        inside(rect, p),
        spacious(rect, p),
        can_cut(rect, p, true) || can_cut(rect, p, false),
    ensures
        ({
            let (a, b, g1) = cut(g, rect, p);
            inside(a, p) && spacious(a, p) && inside(b, p) && spacious(b, p)
        }),
{
    let (preferred, g1) = preferred_cut(g, rect);
    let horizontal = cut_direction(rect, p, preferred);
    let (lo, hi) = cut_bounds(rect, p, horizontal);
    assert(can_cut(rect, p, horizontal));
    assert(lo <= g1.range32(lo, hi) <= hi);
}

/// The rooms of a piece that has space for the smallest of them are neither too small nor
/// too large.
proof fn lemma_layout_sizes(g: RngState, rect: Rect, p: MapParams, depth: nat)
    requires
        inside(rect, p),
        spacious(rect, p),
    ensures
        ({
            let l = layout(g, rect, p, depth);
            forall|k: int| 0 <= k < l.rooms.len() ==> sized(p, #[trigger] l.rooms[k])
        }),
    decreases p.max_depth - depth,
{
    reveal(layout);
    let l = layout(g, rect, p, depth);
    if is_leaf(rect, p, depth) {
        let (w, g1) = room_size(g, inner(rect.w), p.min_room_size, p.max_room_size);
        lemma_drawn_size(g, inner(rect.w), p, p.width);
        lemma_drawn_size(g1, inner(rect.h), p, p.height);
        assert(l.rooms == seq![placed(g, rect, p).0]);
        assert(sized(p, placed(g, rect, p).0));
    } else {
        let (a, b, g1) = cut(g, rect, p);
        lemma_cut_is_spacious(g, rect, p);
        let first = layout(g1, a, p, depth + 1);
        let second = layout(first.rng, b, p, depth + 1);
        lemma_layout_sizes(g1, a, p, depth + 1);
        lemma_layout_sizes(first.rng, b, p, depth + 1);
        assert forall|k: int| 0 <= k < l.rooms.len() implies sized(p, #[trigger] l.rooms[k]) by {
            if k < first.rooms.len() {
                assert(l.rooms[k] == first.rooms[k]);
            } else {
                assert(l.rooms[k] == second.rooms[k - first.rooms.len()]);
            }
        }
    }
}

/// No map has more rooms than the cuts can give: two to the power of their depth.
pub proof fn law_rooms_are_few(p: MapParams, map: TileMap)
    requires
        generated(p, map),
    ensures
        map.rooms@.len() <= pow2(p.max_depth as nat),
{
    lemma_layout_count(RngState::fresh(p.seed), whole(p), p, 0);
}

/// Every room of a generated map has a size between the least and the greatest that were
/// asked for; only on a map that is too small for the least does it take what there is.
pub proof fn law_rooms_are_sized(p: MapParams, map: TileMap, k: int)
    requires
        generated(p, map),
        0 <= k < map.rooms@.len(),
    ensures
        sized(p, map.rooms@[k]),
{
    lemma_layout_sizes(RngState::fresh(p.seed), whole(p), p, 0);
}

/// Every generated map has at least one room, and the player starts in the middle of
/// the first.
pub proof fn law_map_has_a_room(p: MapParams, map: TileMap)
    requires
        generated(p, map),
    ensures
        map.rooms@.len() >= 1,
        map.spawn() == map.rooms@[0].middle(),
{
    lemma_layout_hub(RngState::fresh(p.seed), whole(p), p, 0);
}

/// The rooms of a generated map fit inside its bounds.
pub proof fn law_rooms_fit(p: MapParams, map: TileMap, k: int)
    requires
        generated(p, map),
        p.width >= 1,
        p.height >= 1,
        0 <= k < map.rooms@.len(),
    ensures
        map.rooms@[k].x + map.rooms@[k].w <= map.width,
        map.rooms@[k].y + map.rooms@[k].h <= map.height,
{
    lemma_layout_rooms(RngState::fresh(p.seed), whole(p), p, 0);
}

/// No room of a generated map is empty, and all of its cells are floor.
pub proof fn law_rooms_are_floor(p: MapParams, map: TileMap, k: int, c: Cell)
    requires
        generated(p, map),
        roomy(p),
        0 <= k < map.rooms@.len(),
    ensures
        map.rooms@[k].w > 0,
        map.rooms@[k].h > 0,
        map.rooms@[k].covers(c) ==> map.tile(c) == Tile::Floor,
{
    law_floor_is_built(p, map);
    lemma_layout_sound(RngState::fresh(p.seed), whole(p), p, 0);
    assert(room_interior(whole(p), map_layout(p).rooms[k]));
    if map.rooms@[k].covers(c) {
        assert(room_cells(map_layout(p).rooms[k]).contains(c));
        assert(map.floor().contains(c));
    }
}

/// Two rooms of a generated map are never in contact: at least two rows or columns lie
/// between them.
pub proof fn law_rooms_are_apart(p: MapParams, map: TileMap, j: int, k: int)
    requires
        generated(p, map),
        roomy(p),
        0 <= j < k < map.rooms@.len(),
    ensures
        apart(map.rooms@[j], map.rooms@[k]),
{
    lemma_layout_sound(RngState::fresh(p.seed), whole(p), p, 0);
    assert(apart(map_layout(p).rooms[j], map_layout(p).rooms[k]));
}

/// The floor of a generated map is what was built on it, and none of it lies at the
/// edge of the map.
pub proof fn law_floor_is_built(p: MapParams, map: TileMap)
    requires
        generated(p, map),
        roomy(p),
    ensures
        map.floor() == map_layout(p).cells,
        forall|c: Cell| #[trigger]
            map.floor().contains(c) ==> 0 < c.0 < map.width - 1 && 0 < c.1 < map.height - 1,
{
    let w = p.width as int;
    let h = p.height as int;
    let cells = map_layout(p).cells;
    lemma_layout_sound(RngState::fresh(p.seed), whole(p), p, 0);
    assert forall|c: Cell| map.floor().contains(c) <==> #[trigger] cells.contains(c) by {
        if cells.contains(c) {
            assert(interior(whole(p), c));
        }
        if on_grid(w, h, c) {
            lemma_cell_index(w, h, c);
            let i = cell_index(w, c);
            if map.tiles@[i] == Tile::Floor {
                assert(hits(w, cells, i));
                let d = choose|d: Cell| #[trigger] cells.contains(d) && cell_index(w, d) == i;
                assert(interior(whole(p), d));
                lemma_cell_index(w, h, d);
                assert(c == d);
            }
            if cells.contains(c) {
                assert(hits(w, cells, i));
            }
        }
    }
    assert(map.floor() =~= cells);
}

/// The player of a generated map starts on floor.
pub proof fn law_spawn_on_floor(p: MapParams, map: TileMap)
    requires
        generated(p, map),
        roomy(p),
    ensures
        map.tile(map.spawn()) == Tile::Floor,
        on_grid(map.width as int, map.height as int, map.spawn()),
{
    law_floor_is_built(p, map);
    lemma_layout_sound(RngState::fresh(p.seed), whole(p), p, 0);
    assert(map.floor().contains(map.spawn()));
}

/// Every floor tile of a generated map can be walked to from the player's start: no
/// floor is cut off.
pub proof fn law_floor_is_connected(p: MapParams, map: TileMap, c: Cell)
    requires
        generated(p, map),
        roomy(p),
        map.tile(c) == Tile::Floor,
    ensures
        reaches(map.floor(), map.spawn(), c),
{
    law_floor_is_built(p, map);
    lemma_layout_sound(RngState::fresh(p.seed), whole(p), p, 0);
    assert(map.floor().contains(c));
    assert(map_layout(p).cells.contains(c));
}

/// On a generated map, the field that leads to the player's start reaches every floor
/// tile.
pub proof fn law_field_covers_the_floor(p: MapParams, map: TileMap, field: FlowField, c: Cell)
    requires
        generated(p, map),
        roomy(p),
        field.measures(map, map.spawn()),
        map.tile(c) == Tile::Floor,
    ensures
        field.at(c) != UNREACHABLE,
{
    law_spawn_on_floor(p, map);
    law_floor_is_connected(p, map, c);
    assert(on_grid(map.width as int, map.height as int, c));
}

/// The same parameters give the same map.
pub proof fn law_generation_is_deterministic(p: MapParams, a: TileMap, b: TileMap)
    requires
        generated(p, a),
        generated(p, b),
    ensures
        a.width == b.width,
        a.height == b.height,
        a.seed == b.seed,
        a.tiles@ == b.tiles@,
        a.rooms@ == b.rooms@,
        a.player_spawn == b.player_spawn,
{
}

/// A piece that is cut no further is as deep as cutting goes, or it is too small in both
/// directions; so what is built inside any piece has more rooms than there are cuts left,
/// or enough of them to cover the piece with pieces too small to cut.
proof fn lemma_layout_is_rich(g: RngState, rect: Rect, p: MapParams, depth: nat)
    requires
        inside(rect, p),
        depth <= p.max_depth,
    ensures
        ({
            let rooms = layout(g, rect, p, depth).rooms.len() as int;
            let most = 2 * (p.min_room_size + 2) - 1;
            &&& rooms >= 1
            &&& rooms + depth > p.max_depth || rooms * (most * most) >= rect.w * rect.h
        }),
    decreases p.max_depth - depth,
{
    reveal(layout);
    let rooms = layout(g, rect, p, depth).rooms.len() as int;
    let most = 2 * (p.min_room_size + 2) - 1;
    if is_leaf(rect, p, depth) {
        if depth < p.max_depth {
            assert(rect.w * rect.h <= most * most) by (nonlinear_arith)
                requires
                    0 <= rect.w <= most,
                    0 <= rect.h <= most,
            ;
            assert(rooms * (most * most) == most * most) by (nonlinear_arith)
                requires
                    rooms == 1,
            ;
        }
    } else {
        let (preferred, g0) = preferred_cut(g, rect);
        let horizontal = cut_direction(rect, p, preferred);
        let (lo, hi) = cut_bounds(rect, p, horizontal);
        let at = g0.range32(lo, hi);
        assert(can_cut(rect, p, horizontal));
        assert(lo <= at <= hi);
        let (a, b, g1) = cut(g, rect, p);
        assert((a, b) == halves(rect, horizontal, at));
        assert(inside(a, p) && inside(b, p));
        let first = layout(g1, a, p, depth + 1);
        lemma_layout_is_rich(g1, a, p, depth + 1);
        lemma_layout_is_rich(first.rng, b, p, depth + 1);
        let second = layout(first.rng, b, p, depth + 1);
        let (m, n) = (first.rooms.len() as int, second.rooms.len() as int);
        assert(rooms == m + n);
        assert(rect.w * rect.h == a.w * a.h + b.w * b.h) by (nonlinear_arith)
            requires
                (a.w == rect.w && b.w == rect.w && a.h + b.h == rect.h) || (a.h == rect.h && b.h
                    == rect.h && a.w + b.w == rect.w),
        ;
        assert((m + n) * (most * most) == m * (most * most) + n * (most * most))
            by (nonlinear_arith);
    }
}

/// A map is cut as long as that is possible: until the cuts are as deep as they may go, or
/// until a piece has no space for two of the smallest rooms with their walls in either
/// direction. So a map has more rooms than its cuts may be deep, or enough of them to cover
/// it with pieces of a side that is one short of such a space.
pub proof fn law_rooms_are_many(p: MapParams, map: TileMap)
    requires
        generated(p, map),
    ensures
        ({
            let most = 2 * (p.min_room_size + 2) - 1;
            map.rooms@.len() > p.max_depth || map.rooms@.len() * (most * most) >= map.width
                * map.height
        }),
{
    lemma_layout_is_rich(RngState::fresh(p.seed), whole(p), p, 0);
}

/// A map with space for two of the smallest rooms with their walls in both directions is cut
/// at least twice over: it has four rooms or more.
pub proof fn law_spacious_maps_have_four_rooms(p: MapParams, map: TileMap)
    requires
        generated(p, map),
        p.max_depth >= 2,
        p.width >= 2 * (p.min_room_size + 2),
        p.height >= 2 * (p.min_room_size + 2),
    ensures
        map.rooms@.len() >= 4,
{
    reveal(layout);
    let g = RngState::fresh(p.seed);
    let rect = whole(p);
    assert(can_cut(rect, p, true) && can_cut(rect, p, false));
    let (a, b, g1) = cut(g, rect, p);
    let first = layout(g1, a, p, 1);
    let second = layout(first.rng, b, p, 1);
    assert(!is_leaf(rect, p, 0));
    assert(map.rooms@ == first.rooms + second.rooms);
    assert(!is_leaf(a, p, 1) && !is_leaf(b, p, 1));
    let (aa, ab, g2) = cut(g1, a, p);
    lemma_layout_hub(g2, aa, p, 2);
    let af = layout(g2, aa, p, 2);
    lemma_layout_hub(af.rng, ab, p, 2);
    let (ba, bb, g3) = cut(first.rng, b, p);
    lemma_layout_hub(g3, ba, p, 2);
    let bf = layout(g3, ba, p, 2);
    lemma_layout_hub(bf.rng, bb, p, 2);
}

/// A number between two bounds, drawn only where it has a choice, and the generator after
/// that; the upper bound counts where it is the lower one.
pub open spec fn drawn(g: RngState, lo: u32, hi: u32) -> (u32, RngState) {
    if hi <= lo {
        (hi, g)
    } else {
        (
            g.range32(lo, hi),
            RngState { seed: g.seed, past: g.past.push(Draw::Range32 { lo, hi }) },
        )
    }
}

/// The largest side of a room where so many cells are free: all of them, but no more than
/// the largest that was asked for, unless the smallest is larger still and fits.
pub open spec fn side(p: MapParams, free: int) -> int {
    if free <= p.max_room_size {
        free
    } else if p.max_room_size >= p.min_room_size {
        p.max_room_size as int
    } else if p.min_room_size <= free {
        p.min_room_size as int
    } else {
        free
    }
}

/// A piece is left whole where cutting is as deep as it goes, or where the piece has no
/// space for two of the smallest rooms with their walls in either direction. It holds one
/// room then. Its width, its height and where it lies are drawn, in this order: the sides
/// from the smallest that was asked for to the largest that fits inside the walls, and the
/// place among all that leave a wall on each side.
pub proof fn law_whole_pieces_hold_one_room(g: RngState, rect: Rect, p: MapParams, depth: nat)
    requires
        rect.x + rect.w <= u32::MAX,
        rect.y + rect.h <= u32::MAX,
        rect.w >= 2,
        rect.h >= 2,
        depth >= p.max_depth || (rect.w < 2 * (p.min_room_size + 2) && rect.h < 2 * (
        p.min_room_size + 2)),
    ensures
        ({
            let l = layout(g, rect, p, depth);
            let (w, g1) = drawn(g, p.min_room_size, side(p, rect.w - 2) as u32);
            let (h, g2) = drawn(g1, p.min_room_size, side(p, rect.h - 2) as u32);
            let (dx, g3) = drawn(g2, 0, (rect.w - 2 - w) as u32);
            let (dy, g4) = drawn(g3, 0, (rect.h - 2 - h) as u32);
            &&& l.rooms.len() == 1
            &&& l.rooms[0] == (Room {
                x: (rect.x + 1 + dx) as u32,
                y: (rect.y + 1 + dy) as u32,
                w,
                h,
            })
            &&& l.rng == g4
            &&& forall|c: Cell| #[trigger]
                l.cells.contains(c) <==> {
                    &&& rect.x + 1 + dx <= c.0 < rect.x + 1 + dx + w
                    &&& rect.y + 1 + dy <= c.1 < rect.y + 1 + dy + h
                }
        }),
{
    reveal(layout);
    let l = layout(g, rect, p, depth);
    let (w, g1) = drawn(g, p.min_room_size, side(p, rect.w - 2) as u32);
    let (h, g2) = drawn(g1, p.min_room_size, side(p, rect.h - 2) as u32);
    assert(room_size(g, inner(rect.w), p.min_room_size, p.max_room_size) == (w, g1));
    assert(room_size(g1, inner(rect.h), p.min_room_size, p.max_room_size) == (h, g2));
    lemma_room_size(g, inner(rect.w), p.min_room_size, p.max_room_size);
    lemma_room_size(g1, inner(rect.h), p.min_room_size, p.max_room_size);
    assert(l.rooms == seq![placed(g, rect, p).0]);
}

/// Any other piece is cut in two. If it is more than a quarter wider than it is high, the cut
/// goes from top to bottom, and if it is more than a quarter higher than it is wide, from
/// side to side; else a coin decides. Where a piece is too small to be cut so, it is cut the other way. The place
/// is drawn among all that leave both halves space for the smallest room with its walls. The
/// halves are built one after the other, and the middles of their first rooms are joined by
/// a corridor that goes along the row of the one and then along the column of the other.
pub proof fn law_other_pieces_are_cut(g: RngState, rect: Rect, p: MapParams, depth: nat)
    requires
        inside(rect, p),
        depth < p.max_depth,
        rect.w >= 2 * (p.min_room_size + 2) || rect.h >= 2 * (p.min_room_size + 2),
    ensures
        ({
            let (w, h) = (rect.w as int, rect.h as int);
            let least = p.min_room_size + 2;
            let open = 4 * w <= 5 * h && 4 * h <= 5 * w;
            let g0 = if open {
                RngState { seed: g.seed, past: g.past.push(Draw::Coin) }
            } else {
                g
            };
            let wanted = if open {
                answer_coin(g.seed, g.past)
            } else {
                h > w
            };
            let flat = if wanted {
                h >= 2 * least
            } else {
                w < 2 * least
            };
            let (from, size) = if flat {
                (rect.y as int, h)
            } else {
                (rect.x as int, w)
            };
            let (lo, hi) = ((from + least) as u32, (from + size - least) as u32);
            let at = g0.range32(lo, hi);
            let near = (at - from) as u32;
            let far = (from + size - at) as u32;
            let a = if flat {
                Rect { h: near, ..rect }
            } else {
                Rect { w: near, ..rect }
            };
            let b = if flat {
                Rect { y: at, h: far, ..rect }
            } else {
                Rect { x: at, w: far, ..rect }
            };
            let g1 = RngState { seed: g.seed, past: g0.past.push(Draw::Range32 { lo, hi }) };
            let first = layout(g1, a, p, depth + 1);
            let second = layout(first.rng, b, p, depth + 1);
            let l = layout(g, rect, p, depth);
            let (r, s) = (first.rooms[0], second.rooms[0]);
            let (rx, ry) = (r.x + r.w / 2, r.y + r.h / 2);
            let (sx, sy) = (s.x + s.w / 2, s.y + s.h / 2);
            &&& l.rooms == first.rooms + second.rooms
            &&& l.rng == second.rng
            &&& forall|c: Cell| #[trigger]
                l.cells.contains(c) <==> {
                    ||| first.cells.contains(c)
                    ||| second.cells.contains(c)
                    ||| c.1 == ry && (rx <= c.0 <= sx || sx <= c.0 <= rx)
                    ||| c.0 == sx && (ry <= c.1 <= sy || sy <= c.1 <= ry)
                }
        }),
{
    reveal(layout);
    let (preferred, g0) = preferred_cut(g, rect);
    let horizontal = cut_direction(rect, p, preferred);
    assert(can_cut(rect, p, horizontal));
    let (a, b, g1) = cut(g, rect, p);
    let first = layout(g1, a, p, depth + 1);
    lemma_layout_hub(g1, a, p, depth + 1);
    lemma_layout_hub(first.rng, b, p, depth + 1);
}

/// The player of a generated map starts in the middle of its first room, rounded down.
pub proof fn law_player_starts_in_the_first_room(p: MapParams, map: TileMap)
    requires
        generated(p, map),
    ensures
        map.rooms@.len() >= 1,
        map.player_spawn.0 == map.rooms@[0].x + map.rooms@[0].w / 2,
        map.player_spawn.1 == map.rooms@[0].y + map.rooms@[0].h / 2,
{
    lemma_layout_hub(RngState::fresh(p.seed), whole(p), p, 0);
}

/// A generated map is of the size and the seed that were asked for, and what it is made of
/// is what is built inside the whole of it by a fresh generator: its rooms in their order,
/// and its floor.
pub proof fn law_maps_are_built_from_the_whole(p: MapParams, map: TileMap)
    requires
        generated(p, map),
        roomy(p),
    ensures
        map.width == p.width,
        map.height == p.height,
        map.seed == p.seed,
        ({
            let rect = Rect { x: 0, y: 0, w: p.width, h: p.height };
            let l = layout(RngState { seed: p.seed, past: Seq::empty() }, rect, p, 0);
            &&& map.rooms@ == l.rooms
            &&& forall|c: Cell| map.tile(c) == Tile::Floor <==> #[trigger] l.cells.contains(c)
        }),
{
    law_floor_is_built(p, map);
    let l = map_layout(p);
    assert forall|c: Cell| map.tile(c) == Tile::Floor <==> #[trigger] l.cells.contains(c) by {
        assert(map.floor().contains(c) <==> map.tile(c) == Tile::Floor);
    }
}

} // verus!
