//! Maps made by cutting a rectangle into smaller and smaller ones, placing a room in
//! each piece that is not cut further and joining the two halves of every cut by a
//! corridor.

use vstd::prelude::*;

use crate::procgen::carve::{carve_corridor, carve_room, carved, corridor_cells, room_cells};
use crate::procgen::carve::lemma_carve_both;
use crate::procgen::grid::Cell;
use crate::procgen::tilemap::{MapParams, Room, Tile, TileMap};
use crate::rng::{Draw, RngState, SeededRng};

verus! {

/// A piece of the map.
#[derive(Clone, Copy)]
pub struct Rect {
    pub x: u32,
    pub y: u32,
    pub w: u32,
    pub h: u32,
}

/// The least size of a piece: that of the smallest room, with a wall on both sides.
pub open spec fn min_cut(p: MapParams) -> int {
    p.min_room_size + 2
}

/// The extent of a piece in the direction in which it is cut: its height where the cut
/// is horizontal, else its width.
pub open spec fn extent(rect: Rect, horizontal: bool) -> int {
    if horizontal {
        rect.h as int
    } else {
        rect.w as int
    }
}

/// Whether both halves of a cut in the given direction can have the least size.
pub open spec fn can_cut(rect: Rect, p: MapParams, horizontal: bool) -> bool {
    2 * min_cut(p) <= extent(rect, horizontal)
}

/// Whether a piece is cut no further.
pub open spec fn is_leaf(rect: Rect, p: MapParams, depth: nat) -> bool {
    depth >= p.max_depth || (!can_cut(rect, p, true) && !can_cut(rect, p, false))
}

/// The direction in which a piece is best cut, and the generator after it was chosen:
/// pieces more than a quarter wider than tall are cut by a vertical line, those more
/// than a quarter taller than wide by a horizontal one, the others as a coin falls.
pub open spec fn preferred_cut(g: RngState, rect: Rect) -> (bool, RngState) {
    if 4 * rect.w > 5 * rect.h {
        (false, g)
    } else if 5 * rect.w < 4 * rect.h {
        (true, g)
    } else {
        (g.coin(), g.after(Draw::Coin))
    }
}

/// The direction in which a piece is cut: the preferred one where it can be cut so,
/// else the other.
pub open spec fn cut_direction(rect: Rect, p: MapParams, preferred: bool) -> bool {
    if can_cut(rect, p, preferred) {
        preferred
    } else {
        !preferred
    }
}

/// The lowest and highest coordinate at which a piece can be cut.
pub open spec fn cut_bounds(rect: Rect, p: MapParams, horizontal: bool) -> (u32, u32) {
    let start = if horizontal {
        rect.y
    } else {
        rect.x
    };
    (
        (start + min_cut(p)) as u32,
        (start + extent(rect, horizontal) - min_cut(p)) as u32,
    )
}

/// The two halves of a piece that is cut at the coordinate `at`.
pub open spec fn halves(rect: Rect, horizontal: bool, at: u32) -> (Rect, Rect) {
    if horizontal {
        (
            Rect { x: rect.x, y: rect.y, w: rect.w, h: (at - rect.y) as u32 },
            Rect { x: rect.x, y: at, w: rect.w, h: (rect.y + rect.h - at) as u32 },
        )
    } else {
        (
            Rect { x: rect.x, y: rect.y, w: (at - rect.x) as u32, h: rect.h },
            Rect { x: at, y: rect.y, w: (rect.x + rect.w - at) as u32, h: rect.h },
        )
    }
}

/// What is left of a length when one cell on either side is kept for a wall.
pub open spec fn inner(length: u32) -> u32 {
    if length >= 2 {
        (length - 2) as u32
    } else {
        0
    }
}

/// The largest size of a room for which `available` cells are free: not above `max`,
/// unless that is less than `min`.
pub open spec fn size_cap(available: u32, min: u32, max: u32) -> u32 {
    let upper = if available <= max {
        available
    } else {
        max
    };
    let lower = if min <= available {
        min
    } else {
        available
    };
    if upper >= lower {
        upper
    } else {
        lower
    }
}

/// The size of a room, and the generator after it was drawn: between `min` and the
/// largest size, if that is larger.
pub open spec fn room_size(g: RngState, available: u32, min: u32, max: u32) -> (u32, RngState) {
    let cap = size_cap(available, min, max);
    if cap <= min {
        (cap, g)
    } else {
        (g.range32(min, cap), g.after(Draw::Range32 { lo: min, hi: cap }))
    }
}

/// How far a room is moved from the edge, and the generator after that was drawn.
pub open spec fn room_offset(g: RngState, slack: u32) -> (u32, RngState) {
    if slack > 0 {
        (g.range32(0, slack), g.after(Draw::Range32 { lo: 0, hi: slack }))
    } else {
        (0, g)
    }
}

/// The room of a piece that is not cut, and the generator after it was placed. The
/// width is drawn first, then the height, then where the room lies.
pub open spec fn placed(g: RngState, rect: Rect, p: MapParams) -> (Room, RngState) {
    let (w, g1) = room_size(g, inner(rect.w), p.min_room_size, p.max_room_size);
    let (h, g2) = room_size(g1, inner(rect.h), p.min_room_size, p.max_room_size);
    let (dx, g3) = room_offset(g2, (inner(rect.w) - w) as u32);
    let (dy, g4) = room_offset(g3, (inner(rect.h) - h) as u32);
    (Room { x: (rect.x + 1 + dx) as u32, y: (rect.y + 1 + dy) as u32, w, h }, g4)
}

/// What is built inside a piece of the map.
pub struct Layout {
    /// The rooms, in the order in which they are placed.
    pub rooms: Seq<Room>,
    /// Everything that is made floor: the rooms and the corridors between them.
    pub cells: Set<Cell>,
    /// The middle of the first room, from which corridors lead on.
    pub hub: Cell,
    /// The generator when everything is built.
    pub rng: RngState,
}

/// What is built inside a piece that is not cut: one room.
pub open spec fn leaf_layout(g: RngState, rect: Rect, p: MapParams) -> Layout {
    let (room, g1) = placed(g, rect, p);
    Layout { rooms: seq![room], cells: room_cells(room), hub: room.middle(), rng: g1 }
}

/// What is built inside a piece from what is built inside its halves: a corridor joins
/// the two.
pub open spec fn joined(first: Layout, second: Layout) -> Layout {
    Layout {
        rooms: first.rooms + second.rooms,
        cells: first.cells.union(second.cells).union(corridor_cells(first.hub, second.hub)),
        hub: first.hub,
        rng: second.rng,
    }
}

/// The halves of a piece, and the generator after they were drawn.
pub open spec fn cut(g: RngState, rect: Rect, p: MapParams) -> (Rect, Rect, RngState) {
    let (preferred, g1) = preferred_cut(g, rect);
    let horizontal = cut_direction(rect, p, preferred);
    let (lo, hi) = cut_bounds(rect, p, horizontal);
    let (a, b) = halves(rect, horizontal, g1.range32(lo, hi));
    (a, b, g1.after(Draw::Range32 { lo, hi }))
}

/// What is built inside a piece of the map at the given depth of cutting.
#[verifier::opaque]
pub open spec fn layout(g: RngState, rect: Rect, p: MapParams, depth: nat) -> Layout
    decreases p.max_depth - depth,
{
    if is_leaf(rect, p, depth) {
        leaf_layout(g, rect, p)
    } else {
        let (a, b, g1) = cut(g, rect, p);
        let first = layout(g1, a, p, depth + 1);
        let second = layout(first.rng, b, p, depth + 1);
        joined(first, second)
    }
}

/// The whole map as one piece.
pub open spec fn whole(p: MapParams) -> Rect {
    Rect { x: 0, y: 0, w: p.width, h: p.height }
}

/// Everything that is built on the map that the parameters describe.
pub open spec fn map_layout(p: MapParams) -> Layout {
    layout(RngState::fresh(p.seed), whole(p), p, 0)
}

/// Whether a map is the one that the parameters describe.
pub open spec fn generated(p: MapParams, map: TileMap) -> bool {
    &&& map.wf()
    &&& map.width == p.width
    &&& map.height == p.height
    &&& map.seed == p.seed
    &&& map.rooms@ == map_layout(p).rooms
    &&& map.spawn() == map_layout(p).hub
    &&& map.tiles@ == carved(
        Seq::new((p.width * p.height) as nat, |i: int| Tile::Wall),
        p.width as int,
        map_layout(p).cells,
    )
}

/// Whether a piece lies on the map, and either starts at its edge or has room for a
/// wall on both sides.
pub open spec fn inside(rect: Rect, p: MapParams) -> bool {
    &&& rect.x + rect.w <= p.width
    &&& rect.y + rect.h <= p.height
    &&& rect.x == 0 || rect.w >= 2
    &&& rect.y == 0 || rect.h >= 2
}

/// Generate a BSP-style map. Always succeeds — degenerate parameters (tiny size,
/// impossible splits) produce a minimal map rather than an error, so the caller doesn't
/// need a fallback path.
pub fn generate_bsp(params: &MapParams) -> (map: TileMap)
    requires
        params.width * params.height <= u32::MAX,
    ensures
        generated(*params, map),
{
    let mut rng = SeededRng::seed_from_u64(params.seed);
    let total: usize = (params.width * params.height) as usize;
    let mut tiles: Vec<Tile> = vec![Tile::Wall;total];
    let mut rooms: Vec<Room> = Vec::new();
    assert(tiles@ =~= Seq::new((params.width * params.height) as nat, |i: int| Tile::Wall));
    let root = Rect { x: 0, y: 0, w: params.width, h: params.height };
    let player_spawn = bsp_split(&mut rng, &root, params, 0, &mut tiles, &mut rooms);
    TileMap {
        width: params.width,
        height: params.height,
        tiles,
        rooms,
        seed: params.seed,
        player_spawn,
    }
}

/// Whether the tiles, the rooms, the place where corridors start and the generator are
/// those after something was built.
pub open spec fn is_built(
    l: Layout,
    width: u32,
    tiles_before: Seq<Tile>,
    rooms_before: Seq<Room>,
    tiles: Seq<Tile>,
    rooms: Seq<Room>,
    hub: (u32, u32),
    rng: RngState,
) -> bool {
    &&& (hub.0 as int, hub.1 as int) == l.hub
    &&& rooms == rooms_before + l.rooms
    &&& tiles == carved(tiles_before, width as int, l.cells)
    &&& rng == l.rng
}

/// Builds the room of a piece that is not cut, and returns its middle.
fn build_leaf(
    rng: &mut SeededRng,
    rect: &Rect,
    params: &MapParams,
    tiles: &mut Vec<Tile>,
    rooms: &mut Vec<Room>,
) -> (hub: (u32, u32))
    requires
        inside(*rect, *params),
    ensures
        is_built(
            leaf_layout(old(rng)@, *rect, *params),
            params.width,
            old(tiles)@,
            old(rooms)@,
            final(tiles)@,
            final(rooms)@,
            hub,
            final(rng)@,
        ),
{
    let room = place_room(rng, rect, params);
    carve_room(&room, tiles, params.width);
    rooms.push(room);
    assert(rooms@ =~= old(rooms)@ + seq![room]);
    room.center()
}

/// Builds what belongs inside `rect`, and returns the middle of the first room in it.
fn bsp_split(
    rng: &mut SeededRng,
    rect: &Rect,
    params: &MapParams,
    depth: u8,
    tiles: &mut Vec<Tile>,
    rooms: &mut Vec<Room>,
) -> (hub: (u32, u32))
    requires
        inside(*rect, *params),
    ensures
        is_built(
            layout(old(rng)@, *rect, *params, depth as nat),
            params.width,
            old(tiles)@,
            old(rooms)@,
            final(tiles)@,
            final(rooms)@,
            hub,
            final(rng)@,
        ),
    decreases params.max_depth - depth,
{
    let ghost before = tiles@;
    let ghost built = layout(rng@, *rect, *params, depth as nat);
    let min_cut: u64 = params.min_room_size as u64 + 2;
    let too_shallow = depth >= params.max_depth;
    let too_narrow = (rect.w as u64) < min_cut * 2 && (rect.h as u64) < min_cut * 2;
    if too_shallow || too_narrow {
        proof {
            reveal(layout);
            assert(built == leaf_layout(rng@, *rect, *params));
        }
        return build_leaf(rng, rect, params, tiles, rooms);
    }
    let (a, b) = cut_in_two(rng, rect, params);
    let ghost g1 = rng@;
    let ca = bsp_split(rng, &a, params, depth + 1, tiles, rooms);
    let cb = bsp_split(rng, &b, params, depth + 1, tiles, rooms);
    carve_corridor(ca, cb, tiles, params.width);
    proof {
        let first = layout(g1, a, *params, (depth + 1) as nat);
        let second = layout(first.rng, b, *params, (depth + 1) as nat);
        assert(built == joined(first, second)) by {
            reveal(layout);
        }
        lemma_joined(before, *params, first, second);
        assert(rooms@ =~= old(rooms)@ + built.rooms);
    }
    ca
}

/// Carving the two halves of a piece and the corridor between them is carving what is
/// built inside the piece.
proof fn lemma_joined(tiles: Seq<Tile>, p: MapParams, first: Layout, second: Layout)
    ensures
        carved(tiles, p.width as int, joined(first, second).cells) == carved(
            carved(carved(tiles, p.width as int, first.cells), p.width as int, second.cells),
            p.width as int,
            corridor_cells(first.hub, second.hub),
        ),
{
    lemma_carve_both(tiles, p.width as int, first.cells, second.cells);
    lemma_carve_both(
        tiles,
        p.width as int,
        first.cells.union(second.cells),
        corridor_cells(first.hub, second.hub),
    );
}

/// Cuts a piece that is not a leaf in two.
fn cut_in_two(rng: &mut SeededRng, rect: &Rect, params: &MapParams) -> (parts: (Rect, Rect))
    requires
        inside(*rect, *params),
        can_cut(*rect, *params, true) || can_cut(*rect, *params, false),
    ensures
        (parts.0, parts.1, final(rng)@) == cut(old(rng)@, *rect, *params),
        inside(parts.0, *params),
        inside(parts.1, *params),
{
    let preferred = pick_split_direction(rng, rect);
    let min_cut: u64 = params.min_room_size as u64 + 2;
    let extent: u64 = if preferred { rect.h as u64 } else { rect.w as u64 };
    let horizontal = if extent >= min_cut * 2 { preferred } else { !preferred };
    split_at_random(rng, rect, params, horizontal)
}

/// Cuts a piece at a random place.
fn split_at_random(
    rng: &mut SeededRng,
    rect: &Rect,
    params: &MapParams,
    horizontal: bool,
) -> (parts: (Rect, Rect))
    requires
        inside(*rect, *params),
        can_cut(*rect, *params, horizontal),
    ensures
        ({
            let (lo, hi) = cut_bounds(*rect, *params, horizontal);
            &&& parts == halves(*rect, horizontal, old(rng)@.range32(lo, hi))
            &&& final(rng)@ == old(rng)@.after(Draw::Range32 { lo, hi })
        }),
        inside(parts.0, *params),
        inside(parts.1, *params),
{
    let min_cut: u32 = params.min_room_size + 2;
    if horizontal {
        let lo: u32 = rect.y + min_cut;
        let hi: u32 = rect.y + rect.h - min_cut;
        let split: u32 = rng.range_u32(lo, hi);
        (
            Rect { x: rect.x, y: rect.y, w: rect.w, h: split - rect.y },
            Rect { x: rect.x, y: split, w: rect.w, h: rect.h - (split - rect.y) },
        )
    } else {
        let lo: u32 = rect.x + min_cut;
        let hi: u32 = rect.x + rect.w - min_cut;
        let split: u32 = rng.range_u32(lo, hi);
        (
            Rect { x: rect.x, y: rect.y, w: split - rect.x, h: rect.h },
            Rect { x: split, y: rect.y, w: rect.w - (split - rect.x), h: rect.h },
        )
    }
}

/// Strongly biased against splits that would produce slivers: if the rect is much wider
/// than tall, split vertically; if taller, horizontally; if roughly square, coinflip.
fn pick_split_direction(rng: &mut SeededRng, rect: &Rect) -> (horizontal: bool)
    ensures
        (horizontal, final(rng)@) == preferred_cut(old(rng)@, *rect),
{
    let w: u64 = rect.w as u64;
    let h: u64 = rect.h as u64;
    if 4 * w > 5 * h {
        false
    } else if 5 * w < 4 * h {
        true
    } else {
        rng.coin()
    }
}

/// Places a room inside `rect`, leaving one cell of padding so that adjacent rooms can't
/// merge.
fn place_room(rng: &mut SeededRng, rect: &Rect, params: &MapParams) -> (room: Room)
    requires
        inside(*rect, *params),
    ensures
        (room, final(rng)@) == placed(old(rng)@, *rect, *params),
        room.x + room.w <= u32::MAX,
        room.y + room.h <= u32::MAX,
{
    let inner_w: u32 = if rect.w >= 2 { rect.w - 2 } else { 0 };
    let inner_h: u32 = if rect.h >= 2 { rect.h - 2 } else { 0 };
    let w: u32 = clamp_size(rng, inner_w, params.min_room_size, params.max_room_size);
    let h: u32 = clamp_size(rng, inner_h, params.min_room_size, params.max_room_size);
    let max_x_off: u32 = inner_w - w;
    let max_y_off: u32 = inner_h - h;
    let dx: u32 = if max_x_off > 0 { rng.range_u32(0, max_x_off) } else { 0 };
    let dy: u32 = if max_y_off > 0 { rng.range_u32(0, max_y_off) } else { 0 };
    Room { x: rect.x + 1 + dx, y: rect.y + 1 + dy, w, h }
}

/// Draws a size between `min` and the largest that fits.
fn clamp_size(rng: &mut SeededRng, available: u32, min: u32, max: u32) -> (size: u32)
    ensures
        (size, final(rng)@) == room_size(old(rng)@, available, min, max),
        size <= available,
{
    let upper: u32 = if available <= max { available } else { max };
    let lower: u32 = if min <= available { min } else { available };
    let cap: u32 = if upper >= lower { upper } else { lower };
    if cap <= min {
        cap
    } else {
        rng.range_u32(min, cap)
    }
}

} // verus!
