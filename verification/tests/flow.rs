use bigbox::procgen::bsp::generate_bsp;
use bigbox::procgen::flow::{FlowField, UNREACHABLE};
use bigbox::procgen::tilemap::{MapParams, Tile, TileMap};

/// Hand-rolled 5×3 map for predictable distance tests:
///   #####
///   #...#
///   #####
fn corridor_map() -> TileMap {
    let w = 5;
    let h = 3;
    let mut tiles = vec![Tile::Wall; (w * h) as usize];
    // Floor along the middle row, cols 1..=3
    for x in 1..=3u32 {
        tiles[(1 * w + x) as usize] = Tile::Floor;
    }
    TileMap {
        width: w,
        height: h,
        tiles,
        rooms: vec![],
        seed: 0,
        player_spawn: (1, 1),
    }
}

/// 7×3 with two floor segments split by a wall column:
///   #######
///   #.###.#
///   #######
fn disconnected_map() -> TileMap {
    let w = 7;
    let h = 3;
    let mut tiles = vec![Tile::Wall; (w * h) as usize];
    tiles[(1 * w + 1) as usize] = Tile::Floor;
    tiles[(1 * w + 5) as usize] = Tile::Floor;
    TileMap {
        width: w,
        height: h,
        tiles,
        rooms: vec![],
        seed: 0,
        player_spawn: (1, 1),
    }
}

#[test]
fn goal_distance_is_zero() {
    let map = corridor_map();
    let ff = FlowField::compute(&map, (2, 1));
    assert_eq!(ff.distance_at(2, 1), 0);
}

#[test]
fn direct_neighbors_of_goal_are_distance_one() {
    let map = corridor_map();
    let ff = FlowField::compute(&map, (2, 1));
    assert_eq!(ff.distance_at(1, 1), 1);
    assert_eq!(ff.distance_at(3, 1), 1);
    // Walls above/below the goal stay unreachable.
    assert_eq!(ff.distance_at(2, 0), UNREACHABLE);
    assert_eq!(ff.distance_at(2, 2), UNREACHABLE);
}

#[test]
fn walls_remain_unreachable() {
    let map = corridor_map();
    let ff = FlowField::compute(&map, (1, 1));
    // Top-left wall corner.
    assert_eq!(ff.distance_at(0, 0), UNREACHABLE);
    // The full bottom row.
    for x in 0..map.width {
        assert_eq!(ff.distance_at(x, 2), UNREACHABLE);
    }
}

#[test]
fn disconnected_floor_has_no_path() {
    let map = disconnected_map();
    let ff = FlowField::compute(&map, (1, 1));
    assert_eq!(ff.distance_at(1, 1), 0);
    // The other floor segment is walled off.
    assert_eq!(ff.distance_at(5, 1), UNREACHABLE);
}

#[test]
fn next_step_descends_distance() {
    let map = corridor_map();
    let ff = FlowField::compute(&map, (3, 1));
    // From (1,1) we should step toward (2,1) — closer to the goal.
    assert_eq!(ff.next_step_from(1, 1), Some((2, 1)));
    assert_eq!(ff.next_step_from(2, 1), Some((3, 1)));
    // Already at the goal — no step needed.
    assert_eq!(ff.next_step_from(3, 1), None);
    // Standing on a wall — nothing to do.
    assert_eq!(ff.next_step_from(0, 0), None);
}

#[test]
fn determinism_same_map_and_goal() {
    let map = corridor_map();
    let a = FlowField::compute(&map, (2, 1));
    let b = FlowField::compute(&map, (2, 1));
    assert_eq!(a.distances, b.distances);
}

#[test]
fn every_floor_on_bsp_map_is_reachable_from_spawn() {
    // Doubles as a procgen connectivity property test: BSP corridors
    // should leave no isolated Floor tile.
    for seed in [1u64, 7, 42, 99, 12345] {
        let map = generate_bsp(&MapParams {
            seed,
            ..Default::default()
        });
        let ff = FlowField::compute(&map, map.player_spawn);
        for y in 0..map.height {
            for x in 0..map.width {
                if map.tile_at(x, y) == Tile::Floor {
                    assert_ne!(
                        ff.distance_at(x, y),
                        UNREACHABLE,
                        "seed={seed} tile ({x},{y}) is Floor but unreachable from spawn"
                    );
                }
            }
        }
    }
}
