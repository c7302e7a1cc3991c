//! Turning cells of a tile grid into floor.

use vstd::prelude::*;

use crate::procgen::grid::Cell;
use crate::procgen::tilemap::{cell_index, Room, Tile};

verus! {

/// Whether one of the cells stands at index `i` of a grid of the given width.
pub open spec fn hits(width: int, cells: Set<Cell>, i: int) -> bool {
    exists|c: Cell| #[trigger] cells.contains(c) && cell_index(width, c) == i
}

/// The tiles after the given cells were made floor. Cells whose index lies beyond the
/// tiles change nothing.
pub open spec fn carved(tiles: Seq<Tile>, width: int, cells: Set<Cell>) -> Seq<Tile> {
    Seq::new(
        tiles.len(),
        |i: int|
            if hits(width, cells, i) {
                Tile::Floor
            } else {
                tiles[i]
            },
    )
}

/// The cells of a room.
pub open spec fn room_cells(room: Room) -> Set<Cell> {
    Set::new(|c: Cell| room.covers(c))
}

/// The cells of the corridor from `a` to `b`: along the row of `a` to the column of
/// `b`, then along that column to `b`.
pub open spec fn corridor_cells(a: Cell, b: Cell) -> Set<Cell> {
    Set::new(|c: Cell| on_corridor(a, b, c))
}

/// Whether a cell lies on the corridor from `a` to `b`.
pub open spec fn on_corridor(a: Cell, b: Cell, c: Cell) -> bool {
    ||| c.1 == a.1 && (a.0 <= c.0 <= b.0 || b.0 <= c.0 <= a.0)
    ||| c.0 == b.0 && (a.1 <= c.1 <= b.1 || b.1 <= c.1 <= a.1)
}

/// Carving no cell changes nothing.
pub proof fn lemma_carve_none(tiles: Seq<Tile>, width: int)
    ensures
        carved(tiles, width, Set::empty()) == tiles,
{
    assert(carved(tiles, width, Set::empty()) =~= tiles);
}

/// Carving some cells and then others is carving all of them.
pub proof fn lemma_carve_both(tiles: Seq<Tile>, width: int, first: Set<Cell>, second: Set<Cell>)
    ensures
        carved(carved(tiles, width, first), width, second) == carved(
            tiles,
            width,
            first.union(second),
        ),
{
    assert forall|i: int|
        hits(width, first.union(second), i) <==> hits(width, first, i) || hits(
            width,
            second,
            i,
        ) by {
        if hits(width, first, i) {
            let c = choose|c: Cell| #[trigger] first.contains(c) && cell_index(width, c) == i;
            assert(first.union(second).contains(c));
        }
        if hits(width, second, i) {
            let c = choose|c: Cell| #[trigger] second.contains(c) && cell_index(width, c) == i;
            assert(first.union(second).contains(c));
        }
        if hits(width, first.union(second), i) {
            let c = choose|c: Cell| #[trigger]
                first.union(second).contains(c) && cell_index(width, c) == i;
            assert(first.contains(c) || second.contains(c));
        }
    }
    assert(carved(carved(tiles, width, first), width, second) =~= carved(
        tiles,
        width,
        first.union(second),
    ));
}

/// Makes one cell floor.
fn carve_cell(tiles: &mut Vec<Tile>, width: u32, x: u32, y: u32)
    ensures
        final(tiles)@ == carved(
            old(tiles)@,
            width as int,
            Set::empty().insert((x as int, y as int)),
        ),
{
    let ghost before = tiles@;
    let ghost one: Set<Cell> = Set::empty().insert((x as int, y as int));
    assert(y * width <= 0xffff_ffff * 0xffff_ffff) by (nonlinear_arith)
        requires
            y <= 0xffff_ffff,
            width <= 0xffff_ffff,
    ;
    let idx: u64 = y as u64 * width as u64 + x as u64;
    proof {
        assert(one.contains((x as int, y as int)));
        assert(forall|i: int| hits(width as int, one, i) <==> i == idx);
    }
    if idx < tiles.len() as u64 {
        tiles.set(idx as usize, Tile::Floor);
    }
    assert(tiles@ =~= carved(before, width as int, one));
}

/// Makes the cells of a room floor.
pub fn carve_room(room: &Room, tiles: &mut Vec<Tile>, width: u32)
    requires
        room.x + room.w <= u32::MAX,
        room.y + room.h <= u32::MAX,
    ensures
        final(tiles)@ == carved(old(tiles)@, width as int, room_cells(*room)),
{
    let ghost before = tiles@;
    let ghost mut done: Set<Cell> = Set::empty();
    let right: u32 = room.x + room.w;
    let bottom: u32 = room.y + room.h;
    proof {
        lemma_carve_none(before, width as int);
    }
    for ty in room.y..bottom
        invariant
            right == room.x + room.w,
            bottom == room.y + room.h,
            tiles@ == carved(before, width as int, done),
            forall|c: Cell| done.contains(c) <==> room.covers(c) && c.1 < ty,
    {
        for tx in room.x..right
            invariant
                right == room.x + room.w,
                bottom == room.y + room.h,
                room.y <= ty < bottom,
                tiles@ == carved(before, width as int, done),
                forall|c: Cell|
                    done.contains(c) <==> room.covers(c) && (c.1 < ty || (c.1 == ty && c.0 < tx)),
        {
            carve_cell(tiles, width, tx, ty);
            proof {
                let one: Set<Cell> = Set::empty().insert((tx as int, ty as int));
                lemma_carve_both(before, width as int, done, one);
                done = done.union(one);
            }
        }
    }
    assert(done =~= room_cells(*room));
}

/// Makes the cells of the corridor from `a` to `b` floor: the horizontal leg in the
/// row of `a` first, then the vertical leg in the column of `b`.
pub fn carve_corridor(a: (u32, u32), b: (u32, u32), tiles: &mut Vec<Tile>, width: u32)
    ensures
        final(tiles)@ == carved(
            old(tiles)@,
            width as int,
            corridor_cells((a.0 as int, a.1 as int), (b.0 as int, b.1 as int)),
        ),
{
    let ghost before = tiles@;
    let ghost from: Cell = (a.0 as int, a.1 as int);
    let ghost to: Cell = (b.0 as int, b.1 as int);
    let ghost mut done: Set<Cell> = Set::empty();
    proof {
        lemma_carve_none(before, width as int);
    }
    let (ax, ay) = a;
    let (bx, by) = b;
    let left: u32 = if ax < bx { ax } else { bx };
    let right: u32 = if ax < bx { bx } else { ax };
    let top: u32 = if ay < by { ay } else { by };
    let bottom: u32 = if ay < by { by } else { ay };
    let mut x: u64 = left as u64;
    while x <= right as u64
        invariant
            left <= x <= right + 1,
            tiles@ == carved(before, width as int, done),
            forall|c: Cell| done.contains(c) <==> c.1 == ay && left <= c.0 < x,
        decreases right + 1 - x,
    {
        carve_cell(tiles, width, x as u32, ay);
        proof {
            let one: Set<Cell> = Set::empty().insert((x as int, ay as int));
            lemma_carve_both(before, width as int, done, one);
            done = done.union(one);
        }
        x = x + 1;
    }
    let ghost leg = done;
    let mut y: u64 = top as u64;
    while y <= bottom as u64
        invariant
            top <= y <= bottom + 1,
            tiles@ == carved(before, width as int, done),
            forall|c: Cell| leg.contains(c) <==> c.1 == ay && left <= c.0 <= right,
            forall|c: Cell|
                done.contains(c) <==> leg.contains(c) || (c.0 == bx && top <= c.1 < y),
        decreases bottom + 1 - y,
    {
        carve_cell(tiles, width, bx, y as u32);
        proof {
            let one: Set<Cell> = Set::empty().insert((bx as int, y as int));
            lemma_carve_both(before, width as int, done, one);
            done = done.union(one);
        }
        y = y + 1;
    }
    assert(done =~= corridor_cells(from, to));
}

} // verus!
