//! The rack, the director and the events of a world, on concrete values.

use bigbox::game::director::pick_weighted_archetype;
use bigbox::game::entity::{
    archetype_speed, fire_profile, Appraisal, Content, EnemyInstance, FireProfile, Projectile,
};
use bigbox::game::loot::pickup_label;
use bigbox::game::motion::{repels, Sighting, Step};
use bigbox::game::nearby::{count_within, first_within};
use bigbox::game::rack::{find_weapon_base, stock_item};
use bigbox::game::tick::TickPhase;
use bigbox::game::world::World;
use bigbox::procgen::tilemap::{Tile, TileMap};
use bigbox::rng::SeededRng;
use bigbox::rules::combat::{Aimed, Blow, Combatant, HitResult, Weapon};
use bigbox::rules::enemy::Enemy;
use bigbox::rules::item::{BaseItem, ItemInstance, Rarity};
use bigbox::scalar::Scalar;

fn f(x: Scalar) -> f32 {
    f32::from_bits(x.bits)
}

fn s(x: f32) -> Scalar {
    Scalar { bits: x.to_bits() }
}

fn open_map(size: u32) -> TileMap {
    TileMap {
        width: size,
        height: size,
        tiles: vec![Tile::Floor; (size * size) as usize],
        rooms: vec![],
        seed: 11,
        player_spawn: (size / 2, size / 2),
    }
}

fn weapon_base(id: &str) -> BaseItem {
    BaseItem {
        id: id.into(),
        name: id.to_uppercase(),
        category: "rapid_fire".into(),
        slot: "weapon".into(),
        intrinsic_stats: vec![],
        attachment_slots: vec![],
    }
}

fn helm() -> BaseItem {
    BaseItem { slot: "helm".into(), ..weapon_base("helm") }
}

fn zombie(id: &str, xp: u32) -> Enemy {
    Enemy {
        id: id.into(),
        name: id.into(),
        category: "zombie".into(),
        ilvl: 5,
        max_life: s(30.0),
        armor: s(0.0),
        evasion: s(0.0),
        xp_value: xp,
    }
}

fn content() -> Content {
    Content {
        bases: vec![weapon_base("pistol"), weapon_base("cannon"), helm()],
        enemies: vec![zombie("basic_zombie", 10), zombie("fat_zombie", 40)],
        affixes: vec![],
    }
}

fn item(base: &str, tier: u8) -> ItemInstance {
    ItemInstance {
        base: base.into(),
        ilvl: 1,
        rarity: Rarity::Common,
        seed: 0,
        prefixes: vec![],
        suffixes: vec![],
        upgrade_tier: tier,
        attached: vec![],
    }
}

fn appraisal(damage: f32, rank: f32) -> Appraisal {
    let weapon = Weapon {
        damage_per_shot: s(damage),
        fire_rate: s(1.0),
        crit_chance: s(0.125),
        crit_multiplier: s(2.0),
    };
    Appraisal { weapon, rank: s(rank) }
}

#[test]
fn bases_are_found_among_the_weapons_only() {
    let content = content();
    assert_eq!(find_weapon_base(&content.bases, "cannon").unwrap().name, "CANNON");
    assert!(find_weapon_base(&content.bases, "helm").is_none());
    assert!(find_weapon_base(&content.bases, "raygun").is_none());
    let stock = stock_item("pistol");
    assert_eq!((stock.base.as_str(), stock.upgrade_tier), ("pistol", 0));
}

#[test]
fn the_better_of_two_of_a_kind_keeps_the_slot() {
    let content = content();
    let mut w = World::new(open_map(9));
    assert!(w.acquire_item(item("pistol", 0), &appraisal(5.0, 5.0), &content));
    // Weaker: bagged. As strong: bagged. Stronger: racked, the other bagged.
    assert!(!w.acquire_item(item("pistol", 1), &appraisal(4.0, 4.0), &content));
    assert!(!w.acquire_item(item("pistol", 2), &appraisal(5.0, 5.0), &content));
    assert!(w.acquire_item(item("pistol", 3), &appraisal(6.0, 6.0), &content));
    assert_eq!(w.loadout().len(), 1);
    assert_eq!(w.equipped().unwrap().item.upgrade_tier, 3);
    let bag: Vec<u8> = w.inventory.iter().map(|i| i.upgrade_tier).collect();
    assert_eq!(bag, vec![1, 2, 0]);
    assert_eq!(f(w.tunables.bullet_damage), 6.0);
    assert_eq!(f(w.tunables.crit_chance), 0.125);
    assert_eq!(f(w.tunables.crit_multiplier), 2.0);
}

#[test]
fn a_pickup_touches_one_slot() {
    let content = content();
    let mut w = World::new(open_map(9));
    w.acquire_item(item("pistol", 1), &appraisal(5.0, 5.0), &content);
    w.acquire_item(item("cannon", 1), &appraisal(9.0, 9.0), &content);
    assert_eq!(w.active_slot(), 1);
    // A better pistol takes the pistol's slot and leaves the cannon in hand.
    assert!(!w.acquire_item(item("pistol", 2), &appraisal(6.0, 6.0), &content));
    let tiers: Vec<(&str, u8)> =
        w.loadout().iter().map(|e| (e.item.base.as_str(), e.item.upgrade_tier)).collect();
    assert_eq!(tiers, vec![("pistol", 2), ("cannon", 1)]);
    assert_eq!(w.active_slot(), 1);
    assert_eq!(w.inventory.len(), 1);
}

#[test]
fn activating_twice_is_activating_once() {
    let content = content();
    let mut w = World::new(open_map(9));
    w.acquire_item(item("pistol", 1), &appraisal(5.0, 5.0), &content);
    w.acquire_item(item("cannon", 1), &appraisal(9.0, 9.0), &content);
    w.activate(0);
    assert_eq!((w.active_slot(), f(w.tunables.bullet_damage)), (0, 5.0));
    w.activate(0);
    assert_eq!((w.active_slot(), f(w.tunables.bullet_damage)), (0, 5.0));
    // A slot that is not there changes nothing.
    w.activate(7);
    assert_eq!((w.active_slot(), f(w.tunables.bullet_damage)), (0, 5.0));
}

#[test]
fn armor_goes_to_the_bag() {
    let content = content();
    let mut w = World::new(open_map(9));
    assert!(!w.acquire_item(item("helm", 0), &appraisal(9.0, 9.0), &content));
    assert!(w.equipped().is_none());
    assert_eq!(w.inventory.len(), 1);
}

#[test]
fn labels_tell_what_was_picked_up() {
    let base = "cannon".to_string();
    assert_eq!(pickup_label(Rarity::Epic, &base, false), "Epic cannon");
    assert_eq!(pickup_label(Rarity::Epic, &base, true), "equipped Epic cannon");
}

#[test]
fn profiles_and_speeds_go_by_the_id() {
    assert!(matches!(fire_profile("shotgun"), FireProfile::Spread { .. }));
    assert!(matches!(fire_profile("rocket_launcher"), FireProfile::Explosive { .. }));
    assert_eq!(fire_profile("pistol"), FireProfile::Single);
    assert_eq!(f(archetype_speed("fast_zombie")), 4.5);
    assert_eq!(f(archetype_speed("fat_zombie")), 1.8);
    assert_eq!(f(archetype_speed("unheard_of")), 3.0);
}

#[test]
fn events_have_generators_of_their_own() {
    let mut a = World::new(open_map(9));
    let mut b = World::new(open_map(9));
    let draw = |rng: &mut SeededRng| pick_weighted_archetype(rng, &[0; 12], 1_000_000);
    let first: Vec<usize> = (0..20).map(|_| draw(&mut a.next_event_rng())).collect();
    let again: Vec<usize> = (0..20).map(|_| draw(&mut b.next_event_rng())).collect();
    assert_eq!(first, again);
    let mut distinct = first.clone();
    distinct.sort_unstable();
    distinct.dedup();
    assert!(distinct.len() > 15);
    assert_eq!(a.event_seq, 20);
}

#[test]
fn ids_are_handed_out_once() {
    let mut w = World::new(open_map(9));
    let a = w.alloc_id();
    let b = w.alloc_id();
    assert_ne!(a, b);
}

#[test]
fn waves_keep_their_distance_and_their_limit() {
    let content = content();
    let mut w = World::new(open_map(41));
    w.tunables.max_enemies = 6;
    w.tunables.spawn_weights[1] = 1;
    for _ in 0..5 {
        w.update_spawning(s(0.0), &content);
        assert_eq!(f(w.spawn_timer), f(w.tunables.spawn_interval));
    }
    assert_eq!(w.enemies.len(), 6);
    for e in &w.enemies {
        assert_eq!(e.archetype, 1, "only the weighted archetype spawns");
        assert!(!e.awake);
        assert_eq!(f(e.combatant.current_life), 30.0);
        assert_eq!(f(e.speed), 1.8);
        let (dx, dy) = (f(e.x) - f(w.player.x), f(e.y) - f(w.player.y));
        assert!(dx.abs() + dy.abs() >= w.tunables.spawn_min_distance as f32);
    }
    // A timer that has not run out only runs on.
    w.enemies.clear();
    w.update_spawning(s(0.5), &content);
    assert!(w.enemies.is_empty());
    assert_eq!(f(w.spawn_timer), 0.5);
}

#[test]
fn kills_pay_and_are_reproducible() {
    let content = content();
    let fell = |seed_of: u64| {
        let mut map = open_map(9);
        map.seed = seed_of;
        let mut w = World::new(map);
        for _ in 0..20 {
            assert!(w.debug_spawn_at(1, s(2.5), s(2.5), &content));
        }
        for _ in 0..20 {
            w.kill_enemy(0, &content);
        }
        assert_eq!((w.kills, w.xp, w.enemies.len()), (20, 800, 0));
        for d in &w.drops {
            assert_eq!((f(d.x), f(d.y), d.item.ilvl), (2.5, 2.5, 5));
        }
        w.drops.iter().map(|d| d.item.seed).collect::<Vec<u64>>()
    };
    let a = fell(1);
    assert_eq!(a, fell(1));
    assert_ne!(a, fell(2));
    assert!(!a.is_empty() && a.len() < 20, "some kills drop, some do not");
}

/// A bullet that never crits.
fn bullet(damage: f32, aoe: f32) -> Projectile {
    Projectile {
        x: s(2.5),
        y: s(2.5),
        vx: s(1.0),
        vy: s(0.0),
        damage: s(damage),
        crit_chance: s(0.0),
        crit_multiplier: s(1.0),
        aoe_radius: s(aoe),
        lifetime: s(1.0),
    }
}

fn aimed(ratio: f32, dealt: f32, left: f32) -> Aimed {
    let blow = Blow { ratio: s(0.5), mitigated: s(dealt), left: s(left) };
    Aimed { ratio: s(ratio), crit_damage: s(dealt), plain: blow, crit: blow }
}

#[test]
fn a_dodged_shot_wakes_but_does_not_hurt() {
    let content = content();
    let mut w = World::new(open_map(9));
    w.debug_spawn_at(0, s(2.5), s(2.5), &content);
    // Shots that take nothing, until one is dodged.
    w.enemies[0].combatant.evasion = s(100.0);
    while w.last_hit != Some(HitResult::Dodged) {
        w.enemies[0].awake = false;
        assert!(!w.hit_enemy(0, &bullet(0.0, 0.0), &aimed(0.5, 0.0, 30.0), &content));
    }
    assert!(w.enemies[0].awake);
    assert_eq!(f(w.enemies[0].combatant.current_life), 30.0);
    w.enemies[0].combatant.evasion = s(0.0);
    assert!(!w.hit_enemy(0, &bullet(10.0, 0.0), &aimed(0.5, 10.0, 20.0), &content));
    assert_eq!(f(w.enemies[0].combatant.current_life), 20.0);
    // Armor leaves less of the damage than the bullet brings.
    w.enemies[0].combatant.armor = s(1.0);
    assert!(w.hit_enemy(0, &bullet(80.0, 0.0), &aimed(0.5, 40.0, -20.0), &content));
    assert!(w.enemies.is_empty());
    let hit = HitResult::Hit { damage_dealt: s(40.0), was_crit: false };
    assert_eq!(w.last_hit, Some(hit));
    assert_eq!(w.kills, 1);
}

#[test]
fn a_blast_strikes_what_is_in_reach() {
    let content = content();
    let mut w = World::new(open_map(9));
    for _ in 0..4 {
        w.debug_spawn_at(0, s(2.5), s(2.5), &content);
    }
    let ids: Vec<u64> = w.enemies.iter().map(|e| e.id).collect();
    // The first and the last die, the second is out of reach, the third survives.
    let d2 = vec![s(0.0), s(9.0), s(4.0), s(1.0)];
    let shots = vec![
        aimed(0.0, 30.0, 0.0),
        aimed(0.0, 30.0, 0.0),
        aimed(0.0, 5.0, 25.0),
        aimed(0.0, 30.0, 0.0),
    ];
    w.resolve_explosion(s(2.5), s(2.5), &bullet(30.0, 2.0), d2, &s(4.0), shots, &content);
    assert_eq!(w.kills, 2);
    let left: Vec<(u64, bool, f32)> =
        w.enemies.iter().map(|e| (e.id, e.awake, f(e.combatant.current_life))).collect();
    assert_eq!(left.len(), 2);
    assert!(left.contains(&(ids[1], false, 30.0)));
    assert!(left.contains(&(ids[2], true, 25.0)));
    assert_eq!(w.explosions.len(), 1);
    assert_eq!(f(w.explosions[0].radius), 2.0);
}

#[test]
fn pickups_take_what_is_in_reach() {
    let content = content();
    let mut w = World::new(open_map(9));
    for tier in 0..4 {
        w.push_drop(s(1.0), s(1.0), item("helm", tier));
    }
    let d2 = vec![s(0.1), s(5.0), s(0.49), s(0.5)];
    let worth = vec![appraisal(0.0, 0.0); 4];
    w.collect_pickups(d2, worth, &s(0.49), &content);
    let mut bag: Vec<u8> = w.inventory.iter().map(|i| i.upgrade_tier).collect();
    bag.sort_unstable();
    assert_eq!(bag, vec![0, 2]);
    let mut ground: Vec<u8> = w.drops.iter().map(|d| d.item.upgrade_tier).collect();
    ground.sort_unstable();
    assert_eq!(ground, vec![1, 3]);
    assert_eq!(w.last_pickup.as_deref(), Some("Common helm"));
}

#[test]
fn enemies_wake_on_sight_and_for_good() {
    let content = content();
    let mut w = World::new(open_map(9));
    for _ in 0..3 {
        w.debug_spawn_at(0, s(2.5), s(2.5), &content);
    }
    let see = |d2: f32, clear: bool| Sighting { d2: s(d2), clear };
    w.notice(&vec![see(4.0, true), see(4.0, false), see(5.0, true)], &s(4.0));
    let awake: Vec<bool> = w.enemies.iter().map(|e| e.awake).collect();
    assert_eq!(awake, vec![true, false, false]);
    w.notice(&vec![see(9.0, false); 3], &s(4.0));
    assert!(w.enemies[0].awake);
}

#[test]
fn debug_commands_act_at_once() {
    let content = content();
    let mut w = World::new(open_map(9));
    w.debug_spawn_at(0, s(2.5), s(2.5), &content);
    w.debug_wake_all();
    assert!(w.enemies.iter().all(|e| e.awake));
    // Beyond the last archetype the last one comes; off the floor nothing does.
    assert!(w.debug_spawn_at(9, s(2.5), s(2.5), &content));
    assert_eq!(w.enemies[1].archetype, 1);
    assert!(!w.debug_spawn_at(0, s(-2.5), s(2.5), &content));
    assert!(!w.debug_spawn_at(0, s(2.5), s(2.5), &Content::empty()));
    w.debug_drop(s(1.0), s(1.0), Some("cannon"), Rarity::Rare, 7, &content);
    assert_eq!((w.drops[0].item.rarity, w.drops[0].item.ilvl), (Rarity::Rare, 7));
    w.debug_clear_drops();
    assert!(w.drops.is_empty());
    w.debug_equip_base("cannon", &appraisal(50.0, 50.0), &content);
    assert_eq!(f(w.tunables.bullet_damage), 50.0);
}

#[test]
fn walls_stop_one_axis_at_a_time() {
    let mut map = open_map(5);
    map.tiles[2 * 5 + 3] = Tile::Wall;
    let mut w = World::new(map);
    // The wall is to the east; the step south is free.
    w.integrate_movement(s(1.0), s(1.0), s(3.2), s(3.2));
    assert_eq!((f(w.player.x), f(w.player.y)), (2.5, 3.2));
    // The wall takes the speed on its axis, so that none builds up against it.
    assert_eq!((f(w.player.vx), f(w.player.vy)), (0.0, 1.0));
}

#[test]
fn an_enemy_slides_along_a_wall() {
    let content = content();
    let mut map = open_map(5);
    map.tiles[3] = Tile::Wall;
    let mut w = World::new(map);
    w.debug_spawn_at(0, s(2.5), s(0.5), &content);
    w.debug_spawn_at(0, s(1.5), s(1.5), &content);
    w.debug_wake_all();
    let blind = vec![Sighting { d2: s(9.0), clear: false }; 2];
    w.move_enemies(&blind, &s(4.0), &vec![
        Step { x: s(3.5), y: s(1.25), facing: Some(s(0.75)) },
        Step { x: s(1.5), y: s(1.5), facing: None },
    ]);
    let e: EnemyInstance = w.enemies[0];
    assert_eq!((f(e.x), f(e.y), f(e.facing)), (2.5, 1.25, 0.75));
    let e: EnemyInstance = w.enemies[1];
    assert_eq!((f(e.x), f(e.y), f(e.facing)), (1.5, 1.5, 0.0));
}

#[test]
fn a_dormant_enemy_neither_moves_nor_turns() {
    let content = content();
    let mut w = World::new(open_map(9));
    for _ in 0..3 {
        w.debug_spawn_at(0, s(2.5), s(2.5), &content);
    }
    let before: Vec<EnemyInstance> = w.enemies.clone();
    // In sight; behind a wall; too far away.
    let see = |d2: f32, clear: bool| Sighting { d2: s(d2), clear };
    let seen = vec![see(4.0, true), see(4.0, false), see(5.0, true)];
    let steps = vec![Step { x: s(3.5), y: s(3.5), facing: Some(s(0.75)) }; 3];
    w.move_enemies(&seen, &s(4.0), &steps);
    let woken = EnemyInstance {
        awake: true,
        x: s(3.5),
        y: s(3.5),
        facing: s(0.75),
        ..before[0]
    };
    assert_eq!(w.enemies, vec![woken, before[1], before[2]]);
    // Whoever woke goes on without seeing anyone.
    let steps = vec![Step { x: s(4.5), y: s(3.5), facing: None }; 3];
    w.move_enemies(&vec![see(9.0, false); 3], &s(4.0), &steps);
    assert_eq!(w.enemies[0], EnemyInstance { x: s(4.5), ..woken });
    assert_eq!(w.enemies[1..], before[1..]);
}

#[test]
fn without_a_radius_nobody_is_pushed() {
    assert!(repels(&s(0.5), &s(1.0), &s(1.0)));
    assert!(!repels(&s(1.5), &s(1.0), &s(1.0)));
    assert!(!repels(&s(0.0), &s(1.0), &s(1.0)));
    assert!(!repels(&s(0.5), &s(-1.0), &s(1.0)));
}

#[test]
fn the_wait_for_the_next_shot_stops_at_zero() {
    let mut w = World::new(open_map(5));
    w.cool_down(s(0.2));
    assert_eq!(f(w.player_fire_cooldown), 0.2);
    w.cool_down(s(-0.1));
    assert_eq!(f(w.player_fire_cooldown), 0.0);
}

#[test]
fn only_the_first_in_reach_is_met() {
    let d2 = vec![s(9.0), s(4.0), s(1.0), s(4.0)];
    assert_eq!(first_within(&d2, &s(4.0)), Some(1));
    assert_eq!(first_within(&d2, &s(0.5)), None);
    assert_eq!(count_within(&d2, &s(4.0)), 3);
}

#[test]
fn a_tick_has_ten_parts() {
    let mut phases = vec![World::new(open_map(5)).tick()];
    while *phases.last().unwrap() != TickPhase::Done {
        phases.push(phases.last().unwrap().next());
    }
    assert_eq!(
        phases,
        vec![
            TickPhase::Cooldown,
            TickPhase::Movement,
            TickPhase::Flow,
            TickPhase::Projectiles,
            TickPhase::Explosions,
            TickPhase::Enemies,
            TickPhase::Contact,
            TickPhase::Pickups,
            TickPhase::Spawning,
            TickPhase::Outcome,
            TickPhase::Done,
        ]
    );
    let mut over = World::new(open_map(5));
    over.player.current_life = s(0.0);
    over.settle_game_over();
    assert_eq!(over.tick(), TickPhase::Done);
    assert!(Combatant::dummy(over.player.current_life).dead());
}
