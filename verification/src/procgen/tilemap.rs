//! Tile maps: a grid of walls and floor, the rooms carved into it and the place
//! where the player starts.

use vstd::arithmetic::div_mod::{lemma_fundamental_div_mod, lemma_fundamental_div_mod_converse};
use vstd::prelude::*;

use crate::procgen::grid::Cell;

verus! {

#[derive(Debug, Clone, Copy, PartialEq, Eq, Structural)]
pub enum Tile {
    Wall,
    Floor,
}

#[derive(Debug, Clone, Copy, PartialEq, Eq, Structural)]
pub struct Room {
    pub x: u32,
    pub y: u32,
    pub w: u32,
    pub h: u32,
}

impl Room {
    /// The middle of the room, rounded towards its upper left corner.
    pub open spec fn middle(self) -> Cell {
        (self.x + self.w / 2, self.y + self.h / 2)
    }

    /// Whether the room covers the cell.
    pub open spec fn covers(self, c: Cell) -> bool {
        self.x <= c.0 < self.x + self.w && self.y <= c.1 < self.y + self.h
    }

    /// Whether the middle of the room can be written down.
    pub open spec fn fits(self) -> bool {
        self.x + self.w / 2 <= u32::MAX && self.y + self.h / 2 <= u32::MAX
    }

    pub fn center(&self) -> (c: (u32, u32))
        requires
            self.fits(),
        ensures
            (c.0 as int, c.1 as int) == self.middle(),
    {
        (self.x + self.w / 2, self.y + self.h / 2)
    }
}

/// A grid of tiles, row by row: the tile of column `x` and row `y` stands at
/// `y * width + x`.
#[derive(Debug)]
pub struct TileMap {
    pub width: u32,
    pub height: u32,
    pub tiles: Vec<Tile>,
    pub rooms: Vec<Room>,
    pub seed: u64,
    pub player_spawn: (u32, u32),
}

/// Where the tile of a cell stands, row by row.
pub open spec fn cell_index(width: int, c: Cell) -> int {
    c.1 * width + c.0
}

/// Whether a cell lies on a grid of the given size.
pub open spec fn on_grid(width: int, height: int, c: Cell) -> bool {
    0 <= c.0 < width && 0 <= c.1 < height
}

/// A cell of the grid has an index, and no other cell of the grid has the same one.
pub proof fn lemma_cell_index(width: int, height: int, c: Cell)
    requires
        on_grid(width, height, c),
    ensures
        0 <= cell_index(width, c) < width * height,
        cell_index(width, c) / width == c.1,
        cell_index(width, c) % width == c.0,
{
    let i = cell_index(width, c);
    assert(0 <= c.1 * width) by (nonlinear_arith)
        requires
            0 <= c.1,
            0 < width,
    ;
    assert(c.1 * width + width <= width * height) by (nonlinear_arith)
        requires
            c.1 + 1 <= height,
            0 < width,
    ;
    assert(i == width * c.1 + c.0) by (nonlinear_arith)
        requires
            i == c.1 * width + c.0,
    ;
    lemma_fundamental_div_mod_converse(i, width, c.1, c.0);
}

/// Every index below the number of tiles is that of a cell of the grid.
pub proof fn lemma_index_cell(width: int, height: int, i: int)
    requires
        0 <= i < width * height,
        0 <= width,
    ensures
        0 < width,
        on_grid(width, height, (i % width, i / width)),
        cell_index(width, (i % width, i / width)) == i,
{
    if width == 0 {
        assert(width * height == 0) by (nonlinear_arith)
            requires
                width == 0,
        ;
    }
    lemma_fundamental_div_mod(i, width);
    let q = i / width;
    let r = i % width;
    assert(i == q * width + r) by (nonlinear_arith)
        requires
            i == width * q + r,
    ;
    assert(0 <= q < height) by (nonlinear_arith)
        requires
            i == q * width + r,
            0 <= i < width * height,
            0 <= r < width,
    ;
}

impl TileMap {
    /// Whether the map holds one tile per cell, and not more cells than `u32` counts.
    pub open spec fn wf(self) -> bool {
        self.width * self.height <= u32::MAX && self.tiles@.len() == self.width * self.height
    }

    /// The tile of a cell; outside the grid everything is wall.
    pub open spec fn tile(self, c: Cell) -> Tile {
        if on_grid(self.width as int, self.height as int, c) {
            self.tiles@[cell_index(self.width as int, c)]
        } else {
            Tile::Wall
        }
    }

    /// The cells of the map that are floor.
    pub open spec fn floor(self) -> Set<Cell> {
        Set::new(|c: Cell| self.tile(c) == Tile::Floor)
    }

    /// Where the player starts.
    pub open spec fn spawn(self) -> Cell {
        (self.player_spawn.0 as int, self.player_spawn.1 as int)
    }

    pub fn tile_at(&self, x: u32, y: u32) -> (t: Tile)
        requires
            self.wf(),
        ensures
            t == self.tile((x as int, y as int)),
    {
        if x >= self.width || y >= self.height {
            return Tile::Wall;
        }
        proof {
            lemma_cell_index(self.width as int, self.height as int, (x as int, y as int));
            assert(0 <= y * self.width) by (nonlinear_arith);
        }
        self.tiles[(y * self.width + x) as usize]
    }

    /// The character that stands for a cell: `@` for the player's start, `#` for a
    /// wall, `.` for floor.
    pub open spec fn glyph(self, c: Cell) -> char {
        if c == self.spawn() {
            '@'
        } else if self.tile(c) == Tile::Wall {
            '#'
        } else {
            '.'
        }
    }

    /// The map as text: the rows one after the other, each of them ended by a line
    /// break.
    pub open spec fn ascii(self) -> Seq<char> {
        Seq::new(
            ((self.width + 1) * self.height) as nat,
            |i: int|
                if i % (self.width + 1) == self.width {
                    '\n'
                } else {
                    self.glyph((i % (self.width + 1), i / (self.width + 1)))
                },
        )
    }

    /// Render as a single string with `\n` row separators.
    /// `#` = wall, `.` = floor, `@` = player spawn.
    pub fn render_ascii(&self) -> (s: String)
        requires
            self.wf(),
        ensures
            s@ == self.ascii(),
    {
        let mut s = String::new();
        let ghost stride: int = self.width + 1;
        for y in 0..self.height
            invariant
                self.wf(),
                stride == self.width + 1,
                s@.len() == y * stride,
                forall|i: int| 0 <= i < s@.len() ==> s@[i] == self.ascii()[i],
        {
            proof {
                assert((y + 1) * stride == y * stride + stride) by (nonlinear_arith);
                assert((y + 1) * stride <= stride * self.height) by (nonlinear_arith)
                    requires
                        y + 1 <= self.height,
                        0 <= stride,
                ;
            }
            for x in 0..self.width
                invariant
                    self.wf(),
                    y < self.height,
                    stride == self.width + 1,
                    s@.len() == y * stride + x,
                    (y + 1) * stride == y * stride + stride,
                    (y + 1) * stride <= stride * self.height,
                    forall|i: int| 0 <= i < s@.len() ==> s@[i] == self.ascii()[i],
            {
                proof {
                    lemma_cell_index(stride, self.height as int, (x as int, y as int));
                }
                let ch: char = if x == self.player_spawn.0 && y == self.player_spawn.1 {
                    '@'
                } else {
                    match self.tile_at(x, y) {
                        Tile::Wall => '#',
                        Tile::Floor => '.',
                    }
                };
                s.push(ch);
            }
            proof {
                lemma_cell_index(stride, self.height as int, (self.width as int, y as int));
            }
            s.push('\n');
        }
        proof {
            assert(stride * self.height == self.height * stride) by (nonlinear_arith);
            assert(s@ =~= self.ascii());
        }
        s
    }
}

/// The player's start shows in the text of a map exactly once, where its cell stands,
/// if it lies on the map; each row takes up one character per column and its line
/// break.
pub proof fn law_ascii_shape(map: TileMap, i: int)
    requires
        map.wf(),
        0 <= i < map.ascii().len(),
    ensures
        map.ascii().len() == (map.width + 1) * map.height,
        map.ascii()[i] == '\n' <==> i % (map.width + 1) == map.width,
        map.ascii()[i] == '@' <==> i % (map.width + 1) == map.player_spawn.0 && i / (map.width + 1)
            == map.player_spawn.1 && map.player_spawn.0 < map.width,
{
}

/// Outside the grid every tile is wall.
pub proof fn law_outside_is_wall(map: TileMap, c: Cell)
    requires
        !on_grid(map.width as int, map.height as int, c),
    ensures
        map.tile(c) == Tile::Wall,
        !map.floor().contains(c),
{
}

/// What a map is generated from.
#[derive(Debug, Clone, Copy)]
pub struct MapParams {
    pub width: u32,
    pub height: u32,
    pub min_room_size: u32,
    pub max_room_size: u32,
    pub max_depth: u8,
    pub seed: u64,
}

impl Default for MapParams {
    fn default() -> (p: MapParams)
        ensures
            p == (MapParams {
                width: 80,
                height: 40,
                min_room_size: 5,
                max_room_size: 12,
                max_depth: 5,
                seed: 0,
            }),
    {
        MapParams {
            width: 80,
            height: 40,
            min_room_size: 5,
            max_room_size: 12,
            max_depth: 5,
            seed: 0,
        }
    }
}

/// What each character of the text of a map stands for: besides the player's start and the
/// ends of the rows, walls show as `#` and floor as `.`.
pub proof fn law_ascii_shows_the_tiles(map: TileMap, x: u32, y: u32)
    requires
        map.wf(),
        x < map.width,
        y < map.height,
    ensures
        ({
            let shown = map.ascii()[y * (map.width + 1) + x];
            let tile = map.tiles@[y * map.width + x];
            &&& (x, y) == map.player_spawn ==> shown == '@'
            &&& (x, y) != map.player_spawn && tile == Tile::Wall ==> shown == '#'
            &&& (x, y) != map.player_spawn && tile == Tile::Floor ==> shown == '.'
            &&& map.tile((x as int, y as int)) == tile
        }),
{
    lemma_cell_index(map.width + 1, map.height as int, (x as int, y as int));
    assert(y * (map.width + 1) + x < (map.width + 1) * map.height);
}

/// The middle of a room is as far from one side as from the other, or one cell nearer to the
/// upper left.
pub proof fn law_middle_is_halfway(room: Room)
    ensures
        ({
            let (x, y) = room.middle();
            let (left, right) = (x - room.x, room.x + room.w - x);
            let (above, below) = (y - room.y, room.y + room.h - y);
            &&& left == right || left + 1 == right
            &&& above == below || above + 1 == below
        }),
{
}

} // verus!
