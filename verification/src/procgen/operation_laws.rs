//! What the operations on maps do, said of what goes into a call and what comes out of it.

use vstd::arithmetic::power2::pow2;
use vstd::prelude::*;

use crate::procgen::bsp::generate_bsp;
use crate::procgen::bsp_laws::{
    apart, law_floor_is_connected, law_floor_is_built, law_player_starts_in_the_first_room,
    law_rooms_are_apart, law_rooms_are_few, law_rooms_are_floor, law_rooms_are_many,
    law_rooms_are_sized, law_spacious_maps_have_four_rooms, roomy, sized,
};
use crate::procgen::flow::{
    beside, cell_of, law_goal_is_at_zero, law_numbers_count_steps, law_steps_go_downhill, FlowField,
};
use crate::procgen::grid::{reaches, Cell};
use crate::procgen::spawn::{
    all_candidates, far_cells, law_as_many_points_as_asked_for, law_far_cells_weigh_more,
    law_points_are_picked_by_weight, pick_spawn_points, points_of, weights_of,
};
use crate::procgen::tilemap::{MapParams, Tile, TileMap};
use crate::rng::SeededRng;
use crate::weighted::weight_before;

verus! {

/// A generated map is of the size and the seed that were asked for. It is cut up as far as
/// possible: it has more rooms than its cuts may be deep, or enough of them to cover it with
/// pieces too small to cut; with space for two rooms in both directions and two cuts it has
/// four or more; and never more than the cuts can give. The player starts in the middle of
/// the first room.
pub proof fn law_generated_maps_are_cut_up(p: &MapParams, map: TileMap)
    requires
        p.width * p.height <= u32::MAX,
        call_ensures(generate_bsp, (p,), map),
    ensures
        map.wf(),
        map.width == p.width,
        map.height == p.height,
        map.seed == p.seed,
        ({
            let most = 2 * (p.min_room_size + 2) - 1;
            map.rooms@.len() > p.max_depth || map.rooms@.len() * (most * most) >= p.width
                * p.height
        }),
        p.max_depth >= 2 && p.width > 2 * (p.min_room_size + 2) - 1 && p.height > 2 * (
        p.min_room_size + 2) - 1 ==> map.rooms@.len() >= 4,
        1 <= map.rooms@.len() <= pow2(p.max_depth as nat),
        map.player_spawn.0 == map.rooms@[0].x + map.rooms@[0].w / 2,
        map.player_spawn.1 == map.rooms@[0].y + map.rooms@[0].h / 2,
{
    law_rooms_are_many(*p, map);
    law_rooms_are_few(*p, map);
    law_player_starts_in_the_first_room(*p, map);
    if p.max_depth >= 2 && p.width > 2 * (p.min_room_size + 2) - 1 && p.height > 2 * (
    p.min_room_size + 2) - 1 {
        law_spacious_maps_have_four_rooms(*p, map);
    }
}

/// Every cell of every room of a generated map is floor, no two rooms are closer than two
/// cells, all of them are of the sizes that were asked for; all floor can be walked to from
/// the player's start, and none of it lies at the edge.
pub proof fn law_generated_maps_can_be_walked(
    p: &MapParams,
    map: TileMap,
    j: int,
    k: int,
    c: Cell,
)
    requires
        p.width * p.height <= u32::MAX,
        p.width >= 3,
        p.height >= 3,
        p.min_room_size >= 1,
        call_ensures(generate_bsp, (p,), map),
    ensures
        0 <= k < map.rooms@.len() && map.rooms@[k].x <= c.0 < map.rooms@[k].x + map.rooms@[k].w
            && map.rooms@[k].y <= c.1 < map.rooms@[k].y + map.rooms@[k].h ==> map.tile(c)
            == Tile::Floor,
        0 <= k < map.rooms@.len() ==> sized(*p, map.rooms@[k]),
        0 <= j < k < map.rooms@.len() ==> apart(map.rooms@[j], map.rooms@[k]),
        map.tile(c) == Tile::Floor ==> reaches(map.floor(), map.spawn(), c) && 0 < c.0 < p.width
            - 1 && 0 < c.1 < p.height - 1,
{
    assert(roomy(*p));
    law_floor_is_built(*p, map);
    if 0 <= k < map.rooms@.len() {
        law_rooms_are_floor(*p, map, k, c);
        law_rooms_are_sized(*p, map, k);
        if 0 <= j < k {
            law_rooms_are_apart(*p, map, j, k);
        }
    }
    if map.tile(c) == Tile::Floor {
        law_floor_is_connected(*p, map, c);
        assert(map.floor().contains(c));
    }
}

/// A computed field counts the steps to its goal: zero there, one more than some neighbor
/// everywhere else that can be reached, and never more than one above a neighbor.
pub proof fn law_computed_fields_count_steps(
    map: &TileMap,
    goal: (u32, u32),
    field: FlowField,
    c: Cell,
    next: Cell,
)
    requires
        map.wf(),
        goal.0 < map.width,
        goal.1 < map.height,
        call_ensures(FlowField::compute, (map, goal), field),
    ensures
        field.at((goal.0 as int, goal.1 as int)) == 0,
        field.at(c) == 0 ==> c == (goal.0 as int, goal.1 as int),
        field.at(c) != u32::MAX && beside(c, next) && map.tile(next) == Tile::Floor ==> field.at(
            next,
        ) <= field.at(c) + 1,
        field.at(c) != u32::MAX && field.at(c) > 0 ==> map.tile(c) == Tile::Floor && exists|b: Cell|
            #![trigger field.at(b)]
            beside(b, c) && field.at(b) == field.at(c) - 1,
{
    law_numbers_count_steps(field, *map, cell_of(goal), c, next);
    law_goal_is_at_zero(field, *map, cell_of(goal), c);
}

/// The next step leads to the neighbor that is nearest to the goal, and there is one exactly
/// where some neighbor is nearer.
pub proof fn law_next_steps_lead_to_the_goal(
    field: &FlowField,
    x: u32,
    y: u32,
    step: Option<(u32, u32)>,
)
    requires
        field.wf(),
        call_ensures(FlowField::next_step_from, (field, x, y), step),
    ensures
        ({
            let (i, j) = (x as int, y as int);
            let here = field.at((i, j));
            let (up, right, down, left) = (
                field.at((i, j - 1)),
                field.at((i + 1, j)),
                field.at((i, j + 1)),
                field.at((i - 1, j)),
            );
            &&& step is Some <==> here != u32::MAX && (up < here || right < here || down < here
                || left < here)
            &&& step matches Some(p) ==> {
                let n = field.at((p.0 as int, p.1 as int));
                &&& n <= up && n <= right && n <= down && n <= left
                &&& n == up ==> (p.0 as int, p.1 as int) == (i, j - 1)
                &&& n < up && n == right ==> (p.0 as int, p.1 as int) == (i + 1, j)
                &&& n < up && n < right && n == down ==> (p.0 as int, p.1 as int) == (i, j + 1)
                &&& n < up && n < right && n < down ==> (p.0 as int, p.1 as int) == (i - 1, j)
            }
        }),
{
    law_steps_go_downhill(*field, (x as int, y as int), step);
}

/// As many spawn points come out as are asked for, or all cells that are far enough away and
/// within reach where there are fewer; all of them are such cells, and no two are the same.
pub proof fn law_spawn_points_are_far_away(
    rng: &mut SeededRng,
    field: &FlowField,
    count: usize,
    min_distance: u32,
    out: Vec<(u32, u32)>,
    i: int,
    j: int,
)
    requires
        field.wf(),
        call_ensures(pick_spawn_points, (rng, field, count, min_distance), out),
    ensures
        ({
            let cells = far_cells(*field, min_distance);
            &&& cells.finite()
            &&& out@.len() == if count <= cells.len() {
                count as int
            } else {
                cells.len() as int
            }
            &&& 0 <= i < out@.len() ==> field.at((out@[i].0 as int, out@[i].1 as int)) != u32::MAX
                && field.at((out@[i].0 as int, out@[i].1 as int)) >= min_distance
            &&& 0 <= i < j < out@.len() ==> out@[i] != out@[j]
        }),
{
    law_as_many_points_as_asked_for(old(rng)@, *field, count as nat, min_distance);
    if 0 <= i < out@.len() {
        assert(out@.to_set().contains(out@[i]));
    }
}

/// The text of a map has one line for each row, and shows each tile.
pub proof fn law_rendered_maps(map: &TileMap, s: String, x: u32, y: u32)
    requires
        map.wf(),
        x < map.width,
        y < map.height,
        call_ensures(TileMap::render_ascii, (map,), s),
    ensures
        s@.len() == (map.width + 1) * map.height,
        s@[y * (map.width + 1) + x] == if (x, y) == map.player_spawn {
            '@'
        } else if map.tiles@[y * map.width + x] == Tile::Wall {
            '#'
        } else {
            '.'
        },
{
    crate::procgen::tilemap::law_ascii_shows_the_tiles(*map, x, y);
}

/// The first spawn point is the one that the number drawn falls on: the cells that are far
/// enough away are counted row by row, each as often as it is steps away.
pub proof fn law_first_spawn_point(
    rng: &mut SeededRng,
    field: &FlowField,
    count: usize,
    min_distance: u32,
    out: Vec<(u32, u32)>,
    k: int,
)
    requires
        field.wf(),
        count > 0,
        call_ensures(pick_spawn_points, (rng, field, count, min_distance), out),
        ({
            let all = all_candidates(*field, min_distance);
            let weights = weights_of(all);
            let total = weight_before(weights, weights.len() as int);
            &&& 0 <= k < all.len() <= u32::MAX
            &&& total > 0
            &&& weight_before(weights, k) <= old(rng)@.range64(0, (total - 1) as u64)
                < weight_before(weights, k) + weights[k]
        }),
    ensures
        ({
            let all = all_candidates(*field, min_distance);
            &&& out@.len() > 0
            &&& out@[0] == points_of(all)[k]
            &&& weights_of(all)[k] == field.at((out@[0].0 as int, out@[0].1 as int))
            &&& points_of(all).to_set() == far_cells(*field, min_distance)
        }),
{
    let all = all_candidates(*field, min_distance);
    law_far_cells_weigh_more(*field, min_distance, k, k);
    law_points_are_picked_by_weight(
        old(rng)@,
        points_of(all),
        weights_of(all),
        count as nat,
        k,
    );
}

} // verus!
