use bigbox::procgen::bsp::generate_bsp;
use bigbox::procgen::flow::{FlowField, UNREACHABLE};
use bigbox::procgen::spawn::pick_spawn_points;
use bigbox::procgen::tilemap::{MapParams, TileMap};
use bigbox::rng::SeededRng;

fn bsp_field(seed: u64) -> (TileMap, FlowField) {
    let map = generate_bsp(&MapParams {
        seed,
        ..Default::default()
    });
    let ff = FlowField::compute(&map, map.player_spawn);
    (map, ff)
}

#[test]
fn all_picks_respect_min_distance() {
    let (_, ff) = bsp_field(42);
    let mut rng = SeededRng::seed_from_u64(1);
    let picks = pick_spawn_points(&mut rng, &ff, 20, 8);
    assert!(!picks.is_empty(), "BSP map should have enough far tiles");
    for (x, y) in &picks {
        assert!(
            ff.distance_at(*x, *y) >= 8,
            "pick ({x},{y}) is at distance {} but min was 8",
            ff.distance_at(*x, *y)
        );
    }
}

#[test]
fn picks_are_all_reachable() {
    let (_, ff) = bsp_field(42);
    let mut rng = SeededRng::seed_from_u64(2);
    let picks = pick_spawn_points(&mut rng, &ff, 30, 0);
    for (x, y) in picks {
        assert_ne!(ff.distance_at(x, y), UNREACHABLE);
    }
}

#[test]
fn no_duplicate_picks() {
    let (_, ff) = bsp_field(42);
    let mut rng = SeededRng::seed_from_u64(3);
    let picks = pick_spawn_points(&mut rng, &ff, 50, 0);
    let mut sorted = picks.clone();
    sorted.sort();
    sorted.dedup();
    assert_eq!(sorted.len(), picks.len(), "got duplicate spawn points");
}

#[test]
fn count_caps_at_available_candidates() {
    let (_, ff) = bsp_field(42);
    let mut rng = SeededRng::seed_from_u64(4);
    // Ask for absurdly many — should bound to candidates available.
    let picks = pick_spawn_points(&mut rng, &ff, 100_000, 0);
    let total_floor: usize = {
        let ff_ref = &ff;
        (0..ff.height)
            .flat_map(|y| (0..ff_ref.width).map(move |x| (x, y)))
            .filter(|&(x, y)| ff_ref.distance_at(x, y) != UNREACHABLE)
            .count()
    };
    assert_eq!(picks.len(), total_floor);
}

#[test]
fn determinism_same_seed_same_picks() {
    let (_, ff) = bsp_field(42);
    let mut a = SeededRng::seed_from_u64(7);
    let mut b = SeededRng::seed_from_u64(7);
    let pa = pick_spawn_points(&mut a, &ff, 20, 5);
    let pb = pick_spawn_points(&mut b, &ff, 20, 5);
    assert_eq!(pa, pb);
}

#[test]
fn linear_weighting_biases_picks_toward_far() {
    // Over many seeds, the mean distance of *picks* should exceed the
    // mean distance of *all eligible tiles* — that's the weighting
    // doing what it's supposed to.
    let (_, ff) = bsp_field(42);

    let all_distances: Vec<u32> = {
        let ff_ref = &ff;
        (0..ff.height)
            .flat_map(|y| (0..ff_ref.width).map(move |x| ff_ref.distance_at(x, y)))
            .filter(|&d| d != UNREACHABLE)
            .collect()
    };
    let baseline_mean: f64 =
        all_distances.iter().map(|&d| d as f64).sum::<f64>() / all_distances.len() as f64;

    let mut total = 0u64;
    let mut n = 0u64;
    for seed in 0..50 {
        let mut rng = SeededRng::seed_from_u64(seed);
        let picks = pick_spawn_points(&mut rng, &ff, 10, 0);
        for (x, y) in picks {
            total += ff.distance_at(x, y) as u64;
            n += 1;
        }
    }
    let picked_mean = total as f64 / n as f64;
    assert!(
        picked_mean > baseline_mean,
        "weighting should bias picks toward larger distance: \
         picked_mean = {picked_mean:.2}, baseline_mean = {baseline_mean:.2}"
    );
}
