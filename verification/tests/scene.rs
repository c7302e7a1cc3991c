//! How the scene looks, levels and characters, and the pools that views are kept in.

use bigbox::center::center_of;
use bigbox::game::entity::{Appraisal, Content, Projectile};
use bigbox::procgen::bsp::generate_bsp;
use bigbox::procgen::flow::FlowField;
use bigbox::procgen::tilemap::{MapParams, Tile, TileMap};
use bigbox::procgen::viz::{enemy_markers, header, render, Overlay};
use bigbox::rules::combat::{Combatant, Weapon};
use bigbox::rules::item::{BaseItem, Rarity};
use bigbox::scalar::Scalar;
use bigbox::ui::character::{
    enemy_spec, locomotion, player_spec, AnimClip, CharModel, CharSpec, Drive, PlayerAnim,
};
use bigbox::ui::level::{level_from_str, new_world, resolve_run, Level, DEFAULT_SEED};
use bigbox::ui::pool::{pool_change, reconcile, MatCache, PoolChange};
use bigbox::ui::scene::{
    beam_top, enemy_shape, floor_grain, is_light, low_bits, projectile_look, rarity_color, rubble,
    shows_health_bar, spawn_props, tile_hash, walls, Rgb, Shape,
};

fn f(x: Scalar) -> f32 {
    f32::from_bits(x.bits)
}

fn s(x: f32) -> Scalar {
    Scalar { bits: x.to_bits() }
}

// ---- numbers ----

#[test]
fn centers_are_what_the_machine_computes() {
    for x in [0u32, 1, 2, 3, 41, 1000, 65_535, 8_388_607, 8_388_608, 8_388_609, 16_777_215] {
        assert_eq!(f(center_of(x)), x as f32 + 0.5, "{x}");
    }
    for x in [16_777_216u32, 16_777_217, 16_777_219, 33_554_433, 123_456_789, u32::MAX] {
        assert_eq!(f(center_of(x)), x as f32 + 0.5, "{x}");
    }
}

#[test]
fn scalars_compare_as_the_machine_does() {
    let samples = [
        f32::NEG_INFINITY,
        -3.5,
        -1.0,
        -f32::MIN_POSITIVE,
        -1e-40,
        -0.0,
        0.0,
        1e-40,
        0.25,
        1.0,
        1.000_000_1,
        3.5e9,
        f32::INFINITY,
        f32::NAN,
    ];
    for a in samples {
        for b in samples {
            assert_eq!(s(a).lt(&s(b)), a < b, "{a} < {b}");
            assert_eq!(s(a).le(&s(b)), a <= b, "{a} <= {b}");
        }
        assert_eq!(s(a).is_positive(), a > 0.0, "{a} > 0");
        assert_eq!(s(a).truncate(), a as u32, "{a} as u32");
        for draw in [0u32, 1, 4_194_304, 16_777_215] {
            let unit = draw as f32 / 16_777_216.0;
            assert_eq!(s(a).exceeds_draw(draw), unit < a, "{unit} < {a}");
        }
    }
    assert_eq!(f(Scalar::zero()), 0.0);
}

// ---- looks ----

#[test]
fn archetypes_have_their_own_look() {
    assert_eq!(
        enemy_shape("fat_zombie"),
        Shape { color: Rgb { red: 55, green: 20, blue: 50 }, scale: 52, width: 170 }
    );
    assert_eq!(
        enemy_shape("patient_zero"),
        Shape { color: Rgb { red: 95, green: 10, blue: 10 }, scale: 80, width: 140 }
    );
    assert_eq!(enemy_shape("unheard_of"), enemy_shape("basic_zombie"));
    assert_eq!(rarity_color(Rarity::Epic), Rgb { red: 70, green: 30, blue: 100 });
    assert_eq!((beam_top(Rarity::Basic), beam_top(Rarity::Legendary)), (10, 34));
}

#[test]
fn rockets_look_heavier_than_bullets() {
    let shot = |aoe: f32| Projectile {
        x: s(0.0),
        y: s(0.0),
        vx: s(1.0),
        vy: s(0.0),
        lifetime: s(1.0),
        damage: s(1.0),
        aoe_radius: s(aoe),
        crit_chance: s(0.0),
        crit_multiplier: s(1.0),
    };
    assert_eq!(projectile_look(&shot(0.0)), (22, Rgb { red: 100, green: 90, blue: 40 }));
    assert_eq!(projectile_look(&shot(1.6)), (38, Rgb { red: 100, green: 50, blue: 20 }));
}

#[test]
fn only_the_hurt_show_a_health_bar() {
    let mut c = Combatant::dummy(s(10.0));
    assert!(!shows_health_bar(&c));
    c.hurt(s(9.0));
    assert!(shows_health_bar(&c));
}

#[test]
fn tile_hashes_mix_place_and_seed() {
    let mixed = |tx: u32, ty: u32, seed: u64| {
        let mut h = seed
            ^ (tx as u64).wrapping_mul(0x9E37_79B9_7F4A_7C15)
            ^ (ty as u64).wrapping_mul(0xC2B2_AE3D_27D4_EB4F);
        h ^= h >> 30;
        h = h.wrapping_mul(0xBF58_476D_1CE4_E5B9);
        h ^= h >> 27;
        h = h.wrapping_mul(0x94D0_49BB_1331_11EB);
        h ^ (h >> 31)
    };
    for (x, y, seed) in [(0, 0, 0), (1, 2, 42), (79, 49, 7), (u32::MAX, 5, u64::MAX)] {
        assert_eq!(tile_hash(x, y, seed), mixed(x, y, seed));
        assert_eq!(low_bits(tile_hash(x, y, seed)), mixed(x, y, seed) & 0xFFFF);
    }
}

#[test]
fn props_stand_on_floor_away_from_the_start() {
    let map = generate_bsp(&MapParams { seed: 42, ..Default::default() });
    let props = spawn_props(&map);
    assert!(!props.is_empty());
    for p in &props {
        assert_eq!(map.tile_at(p.x, p.y), Tile::Floor);
        assert_ne!((p.x, p.y), map.player_spawn);
        assert_eq!(p.hash, tile_hash(p.x, p.y, map.seed));
    }
    assert!(!rubble(props[0].hash).is_empty());
    // The walls are all there is besides the floor.
    let floors = map.tiles.iter().filter(|t| **t == Tile::Floor).count();
    assert_eq!(walls(&map).len() + floors, map.tiles.len());
    assert!(walls(&map).iter().all(|(x, y)| map.tile_at(*x, *y) == Tile::Wall));
}

#[test]
fn the_floor_is_a_checkerboard_with_grain() {
    assert!(is_light(0, 0) != is_light(1, 0));
    assert!(is_light(0, 0) == is_light(1, 1));
    let pixels = floor_grain();
    assert!(pixels.iter().any(|p| p.speck) && pixels.iter().any(|p| !p.speck));
}

// ---- pools ----

#[test]
fn views_follow_the_living() {
    let c = reconcile(&vec![1, 2, 3], &vec![3, 4, 1]);
    assert_eq!(c.gone, vec![1]);
    assert_eq!(c.fresh, vec![1]);
    let c = reconcile(&vec![], &vec![5, 6]);
    assert_eq!((c.gone.len(), c.fresh), (0, vec![0, 1]));
}

#[test]
fn pools_grow_and_shrink() {
    assert_eq!(pool_change(2, 5), PoolChange { reuse: 2, spawn: 3, retire: 0 });
    assert_eq!(pool_change(5, 2), PoolChange { reuse: 2, spawn: 0, retire: 3 });
}

#[test]
fn materials_are_made_once() {
    let mut cache = MatCache::new();
    assert_eq!(cache.mat(7), (0, true));
    assert_eq!(cache.mat(9), (1, true));
    assert_eq!(cache.mat(7), (0, false));
}

// ---- characters ----

#[test]
fn characters_have_models() {
    let look = |c: CharSpec| (c.model, c.scale_percent);
    assert_eq!(look(player_spec()), ("characters/kennys/character-a.glb", 105));
    assert_eq!(look(enemy_spec("fat_zombie")), ("characters/kennys/character-m.glb", 135));
    assert_eq!(look(enemy_spec("unheard_of")), look(enemy_spec("basic_zombie")));
}

#[test]
fn speed_sets_the_gait() {
    assert_eq!(locomotion(&s(4.0), true), AnimClip::Sprint);
    assert_eq!(locomotion(&s(1.0), true), AnimClip::Walk);
    assert_eq!(locomotion(&s(0.0), true), AnimClip::HoldBoth);
    assert_eq!(locomotion(&s(0.0), false), AnimClip::Idle);
}

#[test]
fn a_shot_holds_the_shooting_clip() {
    let mut anim = PlayerAnim { prev_cooldown: s(0.0), shoot_ttl: s(0.0) };
    anim.observe(s(0.25), &s(0.001));
    assert_eq!(f(anim.shoot_ttl), 0.28);
    assert_eq!(anim.player_anim_state(s(0.1), &s(4.0)), AnimClip::Shoot);
    // The cooldown runs down: no new shot.
    anim.observe(s(0.2), &s(0.251));
    assert_eq!(f(anim.shoot_ttl), 0.1);
    assert_eq!(anim.player_anim_state(s(-0.1), &s(4.0)), AnimClip::Sprint);
    // The time of the pose stops at zero.
    assert_eq!(f(anim.shoot_ttl), 0.0);
}

#[test]
fn a_model_plays_what_it_has() {
    let mut m = CharModel::new(AnimClip::Walk);
    let all = vec![true; 7];
    assert_eq!(m.drive_char_animation(false, &all, true), Drive { bind: false, play: None });
    assert_eq!(
        m.drive_char_animation(true, &all, true),
        Drive { bind: true, play: Some(AnimClip::Walk) }
    );
    assert_eq!(m.drive_char_animation(true, &all, true), Drive { bind: false, play: None });
    // Without the clip for a state the model idles.
    m.state = AnimClip::Attack;
    let mut some = vec![true; 7];
    some[AnimClip::Attack.index()] = false;
    assert_eq!(
        m.drive_char_animation(true, &some, true),
        Drive { bind: false, play: Some(AnimClip::Idle) }
    );
}

// ---- levels ----

#[test]
fn levels_have_names() {
    assert_eq!(level_from_str("arena"), Level::Arena);
    assert_eq!(level_from_str("arena-empty"), Level::ArenaEmpty);
    assert_eq!(level_from_str("bsp"), Level::Bsp);
    assert_eq!(level_from_str("unheard_of"), Level::Bsp);
}

#[test]
fn arguments_come_before_the_environment() {
    assert_eq!(resolve_run(None, None, None, None), (Level::Bsp, DEFAULT_SEED));
    assert_eq!(resolve_run(None, Some("arena"), None, Some(7)), (Level::Arena, 7));
    assert_eq!(
        resolve_run(Some(Level::ArenaEmpty), Some("arena"), Some(9), Some(7)),
        (Level::ArenaEmpty, 9)
    );
}

fn open_map() -> TileMap {
    TileMap {
        width: 5,
        height: 5,
        tiles: vec![Tile::Floor; 25],
        rooms: vec![],
        seed: 3,
        player_spawn: (2, 2),
    }
}

#[test]
fn a_new_world_arms_the_player_and_keeps_it_over_a_reload() {
    let weapon = Weapon {
        damage_per_shot: s(12.0),
        fire_rate: s(4.0),
        crit_chance: s(0.0),
        crit_multiplier: s(1.0),
    };
    let content = Content {
        bases: vec![BaseItem {
            id: "pistol".into(),
            name: "Pistol".into(),
            category: "rapid_fire".into(),
            slot: "weapon".into(),
            intrinsic_stats: vec![],
            attachment_slots: vec![],
        }],
        ..Content::empty()
    };
    let a = Appraisal { weapon, rank: s(48.0) };
    let mut w = new_world(Level::Bsp, open_map(), &a, &content);
    assert_eq!(w.equipped().unwrap().item.base, "pistol");
    assert_eq!(f(w.tunables.bullet_damage), 12.0);
    assert!(w.tunables.auto_spawn);
    w.tunables.god_mode = true;
    let mut other = open_map();
    other.player_spawn = (1, 3);
    w.reload_world(other);
    assert_eq!((f(w.player.x), f(w.player.y)), (1.5, 3.5));
    assert!(w.tunables.god_mode, "the tunables survive a reload");
}

// ---- maps as text ----

#[test]
fn maps_render_as_text() {
    let mut map = open_map();
    map.tiles[0] = Tile::Wall;
    assert_eq!(map.render_ascii(), "#....\n.....\n..@..\n.....\n.....\n");
    let spawns = vec![(4, 4)];
    let plain = Overlay { flow: None, spawns: &spawns, color: false };
    assert_eq!(render(&map, &plain), "#....\n.....\n..@..\n.....\n....Z\n");
    assert_eq!(header(&map, 1), "seed: 3  size: 5x5  rooms: 0  spawn: (2, 2)  enemy_spawns: 1");
    let field = FlowField::compute(&map, (2, 2));
    let markers = enemy_markers(3, &field, 2, 3);
    assert_eq!(markers.len(), 2);
    assert!(markers.iter().all(|(x, y)| field.distance_at(*x, *y) >= 3));
    assert_eq!(markers, enemy_markers(3, &field, 2, 3));
}
