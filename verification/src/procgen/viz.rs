//! A map as text for the terminal, with the flow field and spawn points laid over it.

use vstd::prelude::*;

use crate::procgen::flow::{FlowField, UNREACHABLE};
use crate::procgen::grid::Cell;
use crate::procgen::spawn::{pick_spawn_points, spawn_points};
use crate::procgen::tilemap::{Tile, TileMap};
use crate::rng::{RngState, SeededRng};
use crate::text::{
    decimal, digit, digit_char, law_digits_spell_the_number, push_decimal, spelled,
};

verus! {

#[derive(Debug, Clone, Copy, PartialEq, Eq, Structural)]
pub enum Color {
    Wall,
    Floor,
    Player,
    Enemy,
}

/// What is laid over a map.
pub struct Overlay<'a> {
    /// The field whose distances replace the floor, if any.
    pub flow: Option<&'a FlowField>,
    /// Where enemies appear.
    pub spawns: &'a Vec<(u32, u32)>,
    /// Whether the text is colored.
    pub color: bool,
}

/// The escape sequence that switches a color on.
pub open spec fn color_code(c: Color) -> Seq<char> {
    match c {
        Color::Wall => "\x1b[90m"@,
        Color::Floor => "\x1b[2;37m"@,
        Color::Player => "\x1b[1;92m"@,
        Color::Enemy => "\x1b[1;91m"@,
    }
}

/// A character as it is written: plain, or between the codes that switch its color on and
/// off.
pub open spec fn painted(ch: char, c: Color, on: bool) -> Seq<char> {
    if on {
        color_code(c).push(ch) + "\x1b[0m"@
    } else {
        seq![ch]
    }
}

/// Appends a character, in color if that is on.
pub fn paint(out: &mut String, ch: char, c: Color, on: bool)
    ensures
        final(out)@ == old(out)@ + painted(ch, c, on),
{
    let ghost before = out@;
    if !on {
        out.push(ch);
        assert(out@ =~= before + seq![ch]);
        return ;
    }
    let code: &str = match c {
        Color::Wall => "\x1b[90m",
        Color::Floor => "\x1b[2;37m",
        Color::Player => "\x1b[1;92m",
        Color::Enemy => "\x1b[1;91m",
    };
    out.append(code);
    out.push(ch);
    out.append("\x1b[0m");
    assert(out@ =~= before + (color_code(c).push(ch) + "\x1b[0m"@));
}

/// Whether an enemy appears on the cell.
pub open spec fn marked(spawns: Seq<(u32, u32)>, c: Cell) -> bool {
    exists|i: int|
        0 <= i < spawns.len() && (#[trigger] spawns[i]).0 == c.0 && spawns[i].1 == c.1
}

/// What a cell shows: the player's start, an enemy, a wall, or floor; over floor the last
/// digit of the distance to the start, where the field is shown.
pub open spec fn mark(
    map: TileMap,
    flow: Option<&FlowField>,
    spawns: Seq<(u32, u32)>,
    c: Cell,
) -> (char, Color) {
    if c == map.spawn() {
        ('@', Color::Player)
    } else if marked(spawns, c) {
        ('Z', Color::Enemy)
    } else if map.tile(c) == Tile::Wall {
        ('#', Color::Wall)
    } else {
        match flow {
            None => ('.', Color::Floor),
            Some(field) => if field.at(c) == UNREACHABLE {
                ('?', Color::Wall)
            } else {
                (digit(field.at(c) as int % 10), Color::Floor)
            },
        }
    }
}

/// The first `n` cells of a row.
pub open spec fn row_text(
    map: TileMap,
    flow: Option<&FlowField>,
    spawns: Seq<(u32, u32)>,
    color: bool,
    y: int,
    n: int,
) -> Seq<char>
    decreases n,
{
    if n <= 0 {
        Seq::empty()
    } else {
        let (ch, c) = mark(map, flow, spawns, (n - 1, y));
        row_text(map, flow, spawns, color, y, n - 1) + painted(ch, c, color)
    }
}

/// The first `n` rows, each of them ended by a line break.
pub open spec fn rows_text(
    map: TileMap,
    flow: Option<&FlowField>,
    spawns: Seq<(u32, u32)>,
    color: bool,
    n: int,
) -> Seq<char>
    decreases n,
{
    if n <= 0 {
        Seq::empty()
    } else {
        rows_text(map, flow, spawns, color, n - 1) + row_text(
            map,
            flow,
            spawns,
            color,
            n - 1,
            map.width as int,
        ).push('\n')
    }
}

fn is_marked(spawns: &Vec<(u32, u32)>, x: u32, y: u32) -> (r: bool)
    ensures
        r == marked(spawns@, (x as int, y as int)),
{
    for i in 0..spawns.len()
        invariant
            forall|k: int|
                0 <= k < i ==> !((#[trigger] spawns@[k]).0 == x && spawns@[k].1 == y),
    {
        if spawns[i].0 == x && spawns[i].1 == y {
            return true;
        }
    }
    false
}

/// What a cell shows.
fn mark_at(map: &TileMap, overlay: &Overlay, x: u32, y: u32) -> (r: (char, Color))
    requires
        map.wf(),
        overlay.flow matches Some(field) ==> field.wf(),
    ensures
        r == mark(*map, overlay.flow, overlay.spawns@, (x as int, y as int)),
{
    if x == map.player_spawn.0 && y == map.player_spawn.1 {
        return ('@', Color::Player);
    }
    if is_marked(overlay.spawns, x, y) {
        return ('Z', Color::Enemy);
    }
    match map.tile_at(x, y) {
        Tile::Wall => ('#', Color::Wall),
        Tile::Floor => match overlay.flow {
            None => ('.', Color::Floor),
            Some(field) => {
                let d: u32 = field.distance_at(x, y);
                if d == UNREACHABLE {
                    ('?', Color::Wall)
                } else {
                    (digit_char((d % 10) as u64), Color::Floor)
                }
            },
        },
    }
}

/// Renders a map, row by row, with what is laid over it.
pub fn render(map: &TileMap, overlay: &Overlay) -> (s: String)
    requires
        map.wf(),
        overlay.flow matches Some(field) ==> field.wf(),
    ensures
        s@ == rows_text(
            *map,
            overlay.flow,
            overlay.spawns@,
            overlay.color,
            map.height as int,
        ),
{
    let mut s = String::new();
    let ghost flow = overlay.flow;
    let ghost spawns = overlay.spawns@;
    for y in 0..map.height
        invariant
            map.wf(),
            overlay.flow matches Some(field) ==> field.wf(),
            flow == overlay.flow,
            spawns == overlay.spawns@,
            s@ == rows_text(*map, flow, spawns, overlay.color, y as int),
    {
        let ghost before = s@;
        assert(before =~= before + row_text(*map, flow, spawns, overlay.color, y as int, 0));
        for x in 0..map.width
            invariant
                map.wf(),
                overlay.flow matches Some(field) ==> field.wf(),
                flow == overlay.flow,
                spawns == overlay.spawns@,
                s@ == before + row_text(*map, flow, spawns, overlay.color, y as int, x as int),
        {
            let (ch, c) = mark_at(map, overlay, x, y);
            paint(&mut s, ch, c, overlay.color);
            assert(s@ =~= before + row_text(*map, flow, spawns, overlay.color, y as int, x + 1));
        }
        s.push('\n');
        assert(s@ =~= before + row_text(
            *map,
            flow,
            spawns,
            overlay.color,
            y as int,
            map.width as int,
        ).push('\n'));
    }
    s
}

/// The line above a map: its seed, size, number of rooms, the player's start and how many
/// enemies are marked.
pub open spec fn header_text(map: TileMap, spawns: int) -> Seq<char> {
    "seed: "@ + decimal(map.seed as nat) + "  size: "@ + decimal(map.width as nat) + "x"@
        + decimal(map.height as nat) + "  rooms: "@ + decimal(map.rooms@.len()) + "  spawn: ("@
        + decimal(map.player_spawn.0 as nat) + ", "@ + decimal(map.player_spawn.1 as nat)
        + ")  enemy_spawns: "@ + decimal(spawns as nat)
}

/// The line above a map.
pub fn header(map: &TileMap, spawns: usize) -> (s: String)
    ensures
        s@ == header_text(*map, spawns as int),
{
    let mut s = String::new();
    s.append("seed: ");
    assert(s@ =~= "seed: "@);
    push_decimal(&mut s, map.seed);
    s.append("  size: ");
    push_decimal(&mut s, map.width as u64);
    s.append("x");
    push_decimal(&mut s, map.height as u64);
    s.append("  rooms: ");
    push_decimal(&mut s, map.rooms.len() as u64);
    s.append("  spawn: (");
    push_decimal(&mut s, map.player_spawn.0 as u64);
    s.append(", ");
    push_decimal(&mut s, map.player_spawn.1 as u64);
    s.append(")  enemy_spawns: ");
    push_decimal(&mut s, spawns as u64);
    s
}

/// Where enemies are marked: picked on the field by a generator of their own, made from the
/// seed after the map's.
pub fn enemy_markers(seed: u64, field: &FlowField, enemies: usize, min_distance: u32) -> (points:
    Vec<(u32, u32)>)
    requires
        field.wf(),
    ensures
        points@ == spawn_points(
            RngState::fresh(seed.wrapping_add(1)),
            *field,
            enemies as nat,
            min_distance,
        ).0,
{
    let mut rng = SeededRng::seed_from_u64(seed.wrapping_add(1));
    pick_spawn_points(&mut rng, field, enemies, min_distance)
}

/// What a cell shows: the player's start before everything else, then an enemy, then a wall,
/// each by its sign. Floor shows as a dot, or by the last digit of the steps to the start
/// where the field is shown, and by a question mark where the start is out of reach.
pub proof fn law_marks(
    map: TileMap,
    field: FlowField,
    spawns: Seq<(u32, u32)>,
    x: u32,
    y: u32,
)
    ensures
        ({
            let c = (x as int, y as int);
            let start = (x, y) == map.player_spawn;
            let enemy = spawns.contains((x, y));
            let wall = map.tile(c) == Tile::Wall;
            let plain = mark(map, None, spawns, c).0;
            let shown = mark(map, Some(&field), spawns, c).0;
            &&& start ==> plain == '@' && shown == '@'
            &&& !start && enemy ==> plain == 'Z' && shown == 'Z'
            &&& !start && !enemy && wall ==> plain == '#' && shown == '#'
            &&& !start && !enemy && !wall ==> plain == '.'
            &&& !start && !enemy && !wall && field.at(c) == u32::MAX ==> shown == '?'
            &&& !start && !enemy && !wall && field.at(c) != u32::MAX ==> shown as int == 48
                + field.at(c) as int % 10
        }),
{
    let c = (x as int, y as int);
    assert(marked(spawns, c) <==> spawns.contains((x, y))) by {
        if marked(spawns, c) {
            let i = choose|i: int|
                0 <= i < spawns.len() && (#[trigger] spawns[i]).0 == c.0 && spawns[i].1 == c.1;
            assert(spawns[i] == (x, y));
        }
        if spawns.contains((x, y)) {
            let i = choose|i: int| 0 <= i < spawns.len() && spawns[i] == (x, y);
            assert(spawns[i].0 == c.0 && spawns[i].1 == c.1);
        }
    }
}

/// Without color a row shows one sign for each cell, and every row ends with a line break.
pub proof fn law_rows_without_color(
    map: TileMap,
    flow: Option<&FlowField>,
    spawns: Seq<(u32, u32)>,
    y: int,
    n: int,
    i: int,
)
    requires
        0 <= n,
    ensures
        row_text(map, flow, spawns, false, y, n).len() == n,
        0 <= i < n ==> row_text(map, flow, spawns, false, y, n)[i] == mark(
            map,
            flow,
            spawns,
            (i, y),
        ).0,
    decreases n,
{
    if n > 0 {
        law_rows_without_color(map, flow, spawns, y, n - 1, i);
    }
}

/// Without color the text of a map has a line of the map's width for each of its rows.
pub proof fn law_lines_without_color(
    map: TileMap,
    flow: Option<&FlowField>,
    spawns: Seq<(u32, u32)>,
    n: int,
    x: int,
    y: int,
)
    requires
        0 <= n,
    ensures
        rows_text(map, flow, spawns, false, n).len() == n * (map.width + 1),
        0 <= y < n && 0 <= x < map.width ==> rows_text(map, flow, spawns, false, n)[y * (map.width
            + 1) + x] == mark(map, flow, spawns, (x, y)).0,
        0 <= y < n ==> rows_text(map, flow, spawns, false, n)[y * (map.width + 1) + map.width]
            == '\n',
    decreases n,
{
    let w = map.width + 1;
    if n > 0 {
        law_lines_without_color(map, flow, spawns, n - 1, x, y);
        law_rows_without_color(map, flow, spawns, n - 1, map.width as int, x);
        assert(n * w == (n - 1) * w + w) by (nonlinear_arith);
        if 0 <= y < n - 1 {
            assert(y * w + w <= (n - 1) * w) by (nonlinear_arith)
                requires
                    y + 1 <= n - 1,
                    w > 0,
            ;
            assert(0 <= y * w) by (nonlinear_arith)
                requires
                    0 <= y,
                    w > 0,
            ;
        }
    } else {
        assert(n * w == 0) by (nonlinear_arith)
            requires
                n == 0,
        ;
    }
}

/// What the line above a map says: its seed, its size, how many rooms it has, where the
/// player starts and how many enemies do.
pub proof fn law_line_above_the_map(map: TileMap, spawns: int)
    requires
        0 <= spawns,
    ensures
        exists|d: Seq<Seq<char>>|
            {
                &&& #[trigger] d.len() == 7
                &&& spelled(d[0], 10) == map.seed
                &&& spelled(d[1], 10) == map.width
                &&& spelled(d[2], 10) == map.height
                &&& spelled(d[3], 10) == map.rooms@.len()
                &&& spelled(d[4], 10) == map.player_spawn.0
                &&& spelled(d[5], 10) == map.player_spawn.1
                &&& spelled(d[6], 10) == spawns
                &&& header_text(map, spawns) == "seed: "@ + d[0] + "  size: "@ + d[1] + "x"@ + d[2]
                    + "  rooms: "@ + d[3] + "  spawn: ("@ + d[4] + ", "@ + d[5]
                    + ")  enemy_spawns: "@ + d[6]
            },
{
    let d = seq![
        decimal(map.seed as nat),
        decimal(map.width as nat),
        decimal(map.height as nat),
        decimal(map.rooms@.len()),
        decimal(map.player_spawn.0 as nat),
        decimal(map.player_spawn.1 as nat),
        decimal(spawns as nat),
    ];
    law_digits_spell_the_number(map.seed as nat);
    law_digits_spell_the_number(map.width as nat);
    law_digits_spell_the_number(map.height as nat);
    law_digits_spell_the_number(map.rooms@.len());
    law_digits_spell_the_number(map.player_spawn.0 as nat);
    law_digits_spell_the_number(map.player_spawn.1 as nat);
    law_digits_spell_the_number(spawns as nat);
    assert(d.len() == 7);
}

} // verus!
