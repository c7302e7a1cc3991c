use bigbox::procgen::bsp::generate_bsp;
use bigbox::procgen::tilemap::{MapParams, Tile};

fn params(seed: u64) -> MapParams {
    MapParams {
        seed,
        ..Default::default()
    }
}

#[test]
fn same_seed_produces_identical_map() {
    let a = generate_bsp(&params(42));
    let b = generate_bsp(&params(42));
    assert_eq!(a.tiles, b.tiles);
    assert_eq!(a.rooms.len(), b.rooms.len());
    for (ra, rb) in a.rooms.iter().zip(&b.rooms) {
        assert_eq!((ra.x, ra.y, ra.w, ra.h), (rb.x, rb.y, rb.w, rb.h));
    }
    assert_eq!(a.player_spawn, b.player_spawn);
}

#[test]
fn different_seeds_produce_different_maps() {
    let a = generate_bsp(&params(1));
    let b = generate_bsp(&params(2));
    assert_ne!(a.tiles, b.tiles, "two seeds shouldn't collide on the same map");
}

#[test]
fn map_has_at_least_one_room() {
    let m = generate_bsp(&params(7));
    assert!(!m.rooms.is_empty(), "BSP must produce at least one room");
}

#[test]
fn player_spawn_is_on_floor() {
    let m = generate_bsp(&params(123));
    let (sx, sy) = m.player_spawn;
    assert_eq!(
        m.tile_at(sx, sy),
        Tile::Floor,
        "spawn at ({sx},{sy}) must be on a Floor tile"
    );
}

#[test]
fn tile_at_returns_wall_out_of_bounds() {
    let m = generate_bsp(&params(0));
    assert_eq!(m.tile_at(m.width, 0), Tile::Wall);
    assert_eq!(m.tile_at(0, m.height), Tile::Wall);
    assert_eq!(m.tile_at(u32::MAX, u32::MAX), Tile::Wall);
}

#[test]
fn ascii_renders_one_char_per_tile_plus_newlines() {
    let m = generate_bsp(&params(3));
    let s = m.render_ascii();
    let lines: Vec<&str> = s.lines().collect();
    assert_eq!(lines.len(), m.height as usize);
    for line in &lines {
        assert_eq!(line.chars().count(), m.width as usize);
    }
    // Player spawn shows as '@' exactly once.
    let at_count = s.chars().filter(|&c| c == '@').count();
    assert_eq!(at_count, 1);
}

#[test]
fn rooms_fit_inside_map_bounds() {
    let m = generate_bsp(&params(99));
    for r in &m.rooms {
        assert!(r.x + r.w <= m.width, "room overruns width: {r:?}");
        assert!(r.y + r.h <= m.height, "room overruns height: {r:?}");
        assert!(r.w > 0 && r.h > 0, "degenerate room: {r:?}");
    }
}

#[test]
fn rooms_are_apart_and_the_edge_is_wall() {
    for seed in 0..20 {
        let map = generate_bsp(&MapParams { seed, ..Default::default() });
        for (i, a) in map.rooms.iter().enumerate() {
            for b in &map.rooms[i + 1..] {
                let beside = a.x + a.w + 2 <= b.x || b.x + b.w + 2 <= a.x;
                let above = a.y + a.h + 2 <= b.y || b.y + b.h + 2 <= a.y;
                assert!(beside || above, "{a:?} is too close to {b:?}");
            }
        }
        for x in 0..map.width {
            assert_eq!(map.tile_at(x, 0), Tile::Wall);
            assert_eq!(map.tile_at(x, map.height - 1), Tile::Wall);
        }
        assert_eq!(map.player_spawn, map.rooms[0].center());
        assert_eq!(map.tile_at(map.width, 0), Tile::Wall);
    }
}

#[test]
fn rooms_are_few_and_of_the_size_asked_for() {
    for seed in 0..20 {
        let p = MapParams {
            width: 60,
            height: 40,
            min_room_size: 4,
            max_room_size: 7,
            max_depth: 3,
            seed,
        };
        let map = generate_bsp(&p);
        assert!((1..=8).contains(&map.rooms.len()));
        for r in &map.rooms {
            assert!((4..=7).contains(&r.w) && (4..=7).contains(&r.h), "{r:?}");
        }
    }
    // A map that is too low for the least room gets one that fills its height.
    let map = generate_bsp(&MapParams {
        width: 20,
        height: 5,
        min_room_size: 4,
        max_room_size: 7,
        max_depth: 0,
        seed: 1,
    });
    assert_eq!(map.rooms.len(), 1);
    assert_eq!((map.rooms[0].y, map.rooms[0].h), (1, 3));
}
