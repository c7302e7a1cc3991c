//! A running game, ticked through the library: movement, shots, enemies, loot and the rack.

use bigbox::game::director::pick_weighted_archetype;
use bigbox::game::entity::{
    projectile_weapon, Appraisal, Command, Content, EnemyInstance, Explosion, LootDrop, Projectile,
};
use bigbox::game::motion::{
    approach, is_pushed, reaches_target, repels, turns, Approach, Sighting, Step,
};
use bigbox::game::nearby::first_within;
use bigbox::game::shots::{has_direction, Flight, Impact};
use bigbox::game::tick::TickPhase;
use bigbox::game::tunables::{
    Tunables, BULLET_DAMAGE, BULLET_LIFETIME, CONTACT_RANGE, EXPLOSION_TTL, FIRE_RATE,
    MAX_SPAWN_ARCHETYPES, PICKUP_RADIUS, PLAYER_ACCEL, PLAYER_SPEED, PROJECTILE_HIT_RADIUS,
    PROJECTILE_SPEED, SPAWN_BATCH, SPAWN_INTERVAL, SPAWN_MIN_DISTANCE,
};
use bigbox::game::world::World;
use bigbox::procgen::bsp::generate_bsp;
use bigbox::procgen::flow::UNREACHABLE;
use bigbox::procgen::tilemap::{MapParams, Tile, TileMap};
use bigbox::rng::SeededRng;
use bigbox::rules::aggregate::{aggregate_item, StatSheet};
use bigbox::rules::combat::{
    armor_mitigation, Aimed, Blow, Combatant, HitResult, StatValue, Weapon,
};
use bigbox::rules::enemy::Enemy;
use bigbox::rules::item::{BaseItem, IntrinsicStat, ItemInstance, Rarity, Roll};
use bigbox::rules::stats::Terms;
use bigbox::scalar::Scalar;

// ---- numbers ----

fn f(x: Scalar) -> f32 {
    f32::from_bits(x.bits)
}

fn s(x: f32) -> Scalar {
    Scalar { bits: x.to_bits() }
}

/// The number that a constant's bits stand for.
fn k(bits: u32) -> f32 {
    f32::from_bits(bits)
}

fn roll_value(r: &Roll) -> f32 {
    f(r.min) + r.draw as f32 / 16_777_216.0 * (f(r.max) - f(r.min))
}

fn evaluate(terms: &Terms) -> f32 {
    let base: f32 = terms.base.iter().map(|v| f(*v)).sum();
    let flat: f32 = terms.flat.iter().map(roll_value).sum();
    let increased: f32 = terms.increased.iter().map(roll_value).sum();
    let more: f32 = terms.more.iter().map(|r| 1.0 + roll_value(r)).product();
    (base + flat) * (1.0 + increased) * more
}

fn stat_values(sheet: &StatSheet) -> Vec<StatValue> {
    let scale = 1.0 + 0.08 * ((sheet.scale_percent - 100) / 8) as f32;
    sheet
        .stats
        .iter()
        .map(|e| StatValue { stat: e.stat.clone(), value: s(evaluate(&e.terms) * scale) })
        .collect()
}

fn evasion_ratio(c: &Combatant) -> Scalar {
    let e = f(c.evasion);
    s(e / (e + 100.0))
}

fn armor_ratio(c: &Combatant, hit: f32) -> Scalar {
    let a = f(c.armor);
    s(a / (a + 10.0 * hit))
}

// ---- ticking ----

fn appraise(item: &ItemInstance, content: &Content) -> Appraisal {
    let stats = match content.bases.iter().find(|b| b.id == item.base) {
        Some(base) => stat_values(&aggregate_item(item, base, &content.affixes, &[])),
        None => Vec::new(),
    };
    let damage: f32 = Weapon::damage_terms(&stats).iter().map(|t| f(*t)).sum();
    let (one, bonus) = Weapon::crit_terms(&stats);
    let weapon = Weapon::from_stats(&stats, s(damage), s(f(one) + f(bonus)));
    let crit = 1.0 + f(weapon.crit_chance) * (f(weapon.crit_multiplier) - 1.0);
    Appraisal { weapon, rank: s(damage * crit * f(weapon.fire_rate)) }
}

fn equip(w: &mut World, item: ItemInstance, content: &Content) -> bool {
    let a = appraise(&item, content);
    w.equip(item, &a, content)
}

fn equip_base(w: &mut World, id: &str, content: &Content) -> bool {
    let a = appraise(&instance(id), content);
    w.equip_base(id, &a, content)
}

fn equip_from_inventory(w: &mut World, index: usize, content: &Content) -> bool {
    let a = match w.inventory.get(index) {
        Some(item) => appraise(item, content),
        None => appraise(&dummy_item(), content),
    };
    w.equip_from_inventory(index, &a, content)
}

fn fire(dx: f32, dy: f32) -> Command {
    Command::Fire { dx: s(dx), dy: s(dy) }
}

fn go(dx: f32, dy: f32) -> Command {
    Command::Move { dx: s(dx), dy: s(dy) }
}

fn apply(w: &mut World, cmd: Command) {
    let Some(shot) = w.apply(cmd) else {
        return;
    };
    let (dx, dy) = (f(shot.dx), f(shot.dy));
    let len = (dx * dx + dy * dy).sqrt();
    if !has_direction(&s(len)) {
        return;
    }
    let (ax, ay) = (dx / len, dy / len);
    let plan = w.spawn_shot(shot.profile);
    let speed = f(w.tunables.projectile_speed) * f(plan.speed_factor);
    let damage = f(w.tunables.bullet_damage) / plan.pellets as f32;
    let velocities = (0..plan.pellets)
        .map(|i| {
            let frac = if plan.pellets == 1 {
                0.0
            } else {
                (i as f32 / (plan.pellets - 1) as f32) * 2.0 - 1.0
            };
            let (sin, cos) = (frac * f(plan.spread)).sin_cos();
            (s((ax * cos - ay * sin) * speed), s((ax * sin + ay * cos) * speed))
        })
        .collect();
    let cooldown = 1.0 / f(w.tunables.fire_rate);
    w.launch(&plan, &velocities, s(damage), s(cooldown));
}

fn distance2(ax: Scalar, ay: Scalar, bx: f32, by: f32) -> f32 {
    let (dx, dy) = (f(ax) - bx, f(ay) - by);
    dx * dx + dy * dy
}

fn enemy_distances(w: &World, x: f32, y: f32) -> Vec<Scalar> {
    w.enemies.iter().map(|e| s(distance2(e.x, e.y, x, y))).collect()
}

fn tick(w: &mut World, dt: f32, content: &Content) {
    let mut phase = w.tick();
    while phase != TickPhase::Done {
        match phase {
            TickPhase::Cooldown => w.cool_down(s(f(w.player_fire_cooldown) - dt)),
            TickPhase::Movement => integrate_movement(w, dt),
            TickPhase::Flow => w.update_flow(),
            TickPhase::Projectiles => resolve_projectiles(w, dt, content),
            TickPhase::Explosions => {
                let ttl: Vec<Scalar> = w.explosions.iter().map(|e| s(f(e.ttl) - dt)).collect();
                w.update_explosions(&ttl);
            }
            TickPhase::Enemies => move_enemies(w, dt),
            TickPhase::Contact => {
                let (px, py) = (f(w.player.x), f(w.player.y));
                let range = k(CONTACT_RANGE);
                let n = w.touching(&enemy_distances(w, px, py), &s(range * range));
                if n > 0 {
                    let damage = f(w.tunables.contact_dps) * dt * n as f32;
                    let left = f(w.player.current_life) - damage;
                    w.drain_player(s(left));
                }
            }
            TickPhase::Pickups => collect_pickups(w, content),
            TickPhase::Spawning => {
                let timer = f(w.spawn_timer) - dt;
                w.update_spawning(s(timer), content);
            }
            TickPhase::Outcome => w.settle_game_over(),
            TickPhase::Done => {}
        }
        phase = phase.next();
    }
}

fn integrate_movement(w: &mut World, dt: f32) {
    let (ix, iy) = w.take_intent();
    let speed = f(w.tunables.player_speed);
    let (tvx, tvy) = (f(ix) * speed, f(iy) * speed);
    let max_delta = f(w.tunables.player_accel) * dt;
    let p = w.player;
    let (dvx, dvy) = (tvx - f(p.vx), tvy - f(p.vy));
    let dlen = (dvx * dvx + dvy * dvy).sqrt();
    let (vx, vy) = if reaches_target(&s(dlen), &s(max_delta)) {
        (tvx, tvy)
    } else {
        (f(p.vx) + dvx / dlen * max_delta, f(p.vy) + dvy / dlen * max_delta)
    };
    w.integrate_movement(s(vx), s(vy), s(f(p.x) + vx * dt), s(f(p.y) + vy * dt));
}

fn blow(hit: f32, target: &Combatant) -> Blow {
    let ratio = armor_ratio(target, hit);
    let mitigated = hit * (1.0 - f(armor_mitigation(&target.armor, &s(hit), ratio)));
    Blow { ratio, mitigated: s(mitigated), left: s(f(target.current_life) - mitigated) }
}

fn aim_at(shot: &Projectile, target: &Combatant) -> Aimed {
    let weapon = projectile_weapon(shot);
    let damage = f(weapon.damage_per_shot);
    let crit_damage = damage * f(weapon.crit_multiplier);
    Aimed {
        ratio: evasion_ratio(target),
        crit_damage: s(crit_damage),
        plain: blow(damage, target),
        crit: blow(crit_damage, target),
    }
}

fn resolve_projectiles(w: &mut World, dt: f32, content: &Content) {
    let r = k(PROJECTILE_HIT_RADIUS);
    let mut i = 0;
    while i < w.projectiles.len() {
        let p = w.projectiles[i];
        let (x, y) = (f(p.x) + f(p.vx) * dt, f(p.y) + f(p.vy) * dt);
        let enemy = first_within(&enemy_distances(w, x, y), &s(r * r));
        let flight = Flight { x: s(x), y: s(y), lifetime: s(f(p.lifetime) - dt), enemy };
        match w.advance_projectile(i, &flight) {
            Impact::Flies => i += 1,
            Impact::Expired | Impact::Wall => {}
            Impact::Enemy { index, shot } => {
                let aimed = aim_at(&shot, &w.enemies[index].combatant);
                w.hit_enemy(index, &shot, &aimed, content);
            }
            Impact::Blast { shot } => {
                let radius = f(shot.aoe_radius);
                let aimed = w.enemies.iter().map(|e| aim_at(&shot, &e.combatant)).collect();
                let d2 = enemy_distances(w, x, y);
                w.resolve_explosion(s(x), s(y), &shot, d2, &s(radius * radius), aimed, content);
            }
        }
    }
}

fn samples(x0: f32, y0: f32, x1: f32, y1: f32) -> Vec<(Scalar, Scalar)> {
    let (dx, dy) = (x1 - x0, y1 - y0);
    let steps = ((dx * dx + dy * dy).sqrt() / 0.25).ceil() as i32;
    (1..=steps)
        .map(|i| {
            let t = i as f32 / steps as f32;
            (s(x0 + dx * t), s(y0 + dy * t))
        })
        .collect()
}

fn separation(w: &World, i: usize) -> (f32, f32) {
    let r = f(w.tunables.separation_radius);
    let e = &w.enemies[i];
    let (mut sx, mut sy) = (0.0, 0.0);
    for (j, o) in w.enemies.iter().enumerate() {
        let (dx, dy) = (f(e.x) - f(o.x), f(e.y) - f(o.y));
        let d2 = dx * dx + dy * dy;
        if j != i && repels(&s(d2), &s(r), &s(r * r)) {
            let d = d2.sqrt();
            sx += dx / d * ((r - d) / r);
            sy += dy / d * ((r - d) / r);
        }
    }
    (sx, sy)
}

/// Down the flow field, along the slope of its distances around the enemy.
fn flow_dir(w: &World, ex: f32, ey: f32) -> (f32, f32) {
    let at = |dx: i64, dy: i64| -> Option<f32> {
        let (x, y) = (ex as i64 + dx, ey as i64 + dy);
        if x < 0 || y < 0 {
            return None;
        }
        let d = w.flow().distance_at(x as u32, y as u32);
        if d == UNREACHABLE { None } else { Some(d as f32) }
    };
    let here = at(0, 0).unwrap_or(0.0);
    let gx = at(-1, 0).unwrap_or(here) - at(1, 0).unwrap_or(here);
    let gy = at(0, -1).unwrap_or(here) - at(0, 1).unwrap_or(here);
    let len = (gx * gx + gy * gy).sqrt();
    if len > 1e-6 {
        return (gx / len, gy / len);
    }
    match w.flow().next_step_from(ex as u32, ey as u32) {
        Some((tx, ty)) => {
            let (dx, dy) = (tx as f32 + 0.5 - ex, ty as f32 + 0.5 - ey);
            let len = (dx * dx + dy * dy).sqrt();
            (dx / len, dy / len)
        }
        None => (0.0, 0.0),
    }
}

fn move_enemies(w: &mut World, dt: f32) {
    let (px, py) = (f(w.player.x), f(w.player.y));
    let sight = f(w.tunables.sight_range);
    let los = f(w.tunables.los_range);
    let n = w.enemies.len();
    let seen = w
        .enemies
        .iter()
        .map(|e| Sighting {
            d2: s(distance2(e.x, e.y, px, py)),
            clear: w.line_clear(&samples(f(e.x), f(e.y), px, py)),
        })
        .collect();
    let mut dirs: Vec<(f32, f32)> = Vec::new();
    for i in 0..n {
        let e = w.enemies[i];
        let (ex, ey) = (f(e.x), f(e.y));
        let d2 = distance2(e.x, e.y, px, py);
        let clear = w.line_clear(&samples(ex, ey, px, py));
        let (skx, sky) = match approach(&s(d2), &s(los * los), clear) {
            Approach::Beeline => ((px - ex) / d2.sqrt(), (py - ey) / d2.sqrt()),
            Approach::Flow => flow_dir(w, ex, ey),
        };
        let (spx, spy) = separation(w, i);
        let weight = f(w.tunables.separation_weight);
        let (dx, dy) = (skx + spx * weight, sky + spy * weight);
        let len = (dx * dx + dy * dy).sqrt();
        dirs.push(if is_pushed(&s(len)) { (dx / len, dy / len) } else { (0.0, 0.0) });
    }
    let steps = dirs
        .into_iter()
        .zip(&w.enemies)
        .map(|((dx, dy), e)| {
            let step = f(e.speed) * f(w.tunables.enemy_speed_mult) * dt;
            let facing = if turns(&s(dx * dx + dy * dy)) { Some(s(dx.atan2(dy))) } else { None };
            Step { x: s(f(e.x) + dx * step), y: s(f(e.y) + dy * step), facing }
        })
        .collect();
    w.move_enemies(&seen, &s(sight * sight), &steps);
}

fn collect_pickups(w: &mut World, content: &Content) {
    let (px, py) = (f(w.player.x), f(w.player.y));
    let r = k(PICKUP_RADIUS);
    let d2 = w.drops.iter().map(|d| s(distance2(d.x, d.y, px, py))).collect();
    let worth = w.drops.iter().map(|d| appraise(&d.item, content)).collect();
    w.collect_pickups(d2, worth, &s(r * r), content);
}

// ---- setting up ----

fn world_at_seed(seed: u64) -> World {
    World::new(generate_bsp(&MapParams { seed, ..Default::default() }))
}

fn stands(w: &World, x: f32, y: f32) -> bool {
    w.can_stand(&s(x), &s(y))
}

/// Puts an enemy into the world under the id that it carries.
fn add_enemy(w: &mut World, e: EnemyInstance) {
    w.next_entity_id = w.next_entity_id.max(e.id + 1);
    w.enemies.push(e);
}

/// Puts a drop into the world under the id that it carries.
fn add_drop(w: &mut World, d: LootDrop) {
    w.next_entity_id = w.next_entity_id.max(d.id + 1);
    w.drops.push(d);
}

fn single_floor_map() -> TileMap {
    // 3×3 with one Floor at (1,1).
    let w = 3;
    let h = 3;
    let mut tiles = vec![Tile::Wall; (w * h) as usize];
    tiles[(w + 1) as usize] = Tile::Floor;
    TileMap { width: w, height: h, tiles, rooms: vec![], seed: 0, player_spawn: (1, 1) }
}

/// A test enemy archetype with the given id and life. No defenses so a
/// single shot is enough to study kills.
fn test_enemy(id: &str, max_life: f32) -> Enemy {
    Enemy {
        id: id.into(),
        name: id.into(),
        category: "zombie".into(),
        ilvl: 1,
        max_life: s(max_life),
        armor: s(0.0),
        evasion: s(0.0),
        xp_value: 10,
    }
}

fn dummy_item() -> ItemInstance {
    ItemInstance {
        base: "pistol".into(),
        ilvl: 1,
        rarity: Rarity::Common,
        seed: 0,
        prefixes: vec![],
        suffixes: vec![],
        upgrade_tier: 0,
        attached: vec![],
    }
}

/// A weapon base with just damage + fire rate (no crit), so its DPS is a
/// clean `dmg × rate` — handy for asserting upgrade comparisons exactly.
fn weapon_base(id: &str, name: &str, dmg: f32, rate: f32) -> BaseItem {
    BaseItem {
        id: id.into(),
        name: name.into(),
        category: "rapid_fire".into(),
        slot: "weapon".into(),
        intrinsic_stats: vec![
            IntrinsicStat { stat: "weapon_damage".into(), value: s(dmg) },
            IntrinsicStat { stat: "fire_rate".into(), value: s(rate) },
        ],
        attachment_slots: vec![],
    }
}

/// An armor base (helm slot) — used to prove non-weapons never arm the gun.
fn armor_base(id: &str) -> BaseItem {
    BaseItem {
        id: id.into(),
        name: id.into(),
        category: "helm".into(),
        slot: "helm".into(),
        intrinsic_stats: vec![],
        attachment_slots: vec![],
    }
}

/// Content spanning the DPS range plus the two heavy bases (whose ids drive
/// their fire profiles) and one armor base: pistol 48 dps, cannon 200 dps,
/// peashooter 1 dps, shotgun (spread), rocket_launcher (explosive), helm.
fn weapon_content() -> Content {
    Content {
        bases: vec![
            weapon_base("pistol", "Pistol", 12.0, 4.0),
            weapon_base("cannon", "Cannon", 50.0, 4.0),
            weapon_base("peashooter", "Peashooter", 1.0, 1.0),
            weapon_base("shotgun", "Shotgun", 36.0, 1.0),
            weapon_base("rocket_launcher", "Rocket Launcher", 80.0, 0.5),
            armor_base("helm"),
        ],
        ..Content::empty()
    }
}

fn instance(base_id: &str) -> ItemInstance {
    ItemInstance { base: base_id.into(), ..dummy_item() }
}

/// Same base at a given upgrade tier — a stronger instance of one archetype.
fn instance_tier(base_id: &str, tier: u8) -> ItemInstance {
    ItemInstance { base: base_id.into(), upgrade_tier: tier, ..dummy_item() }
}

/// Place a ground drop of `base_id` directly on the player.
fn drop_on_player(w: &mut World, base_id: &str) {
    let (x, y) = (w.player.x, w.player.y);
    add_drop(w, LootDrop { id: 1, x, y, item: instance(base_id) });
}

// ---- movement ----

#[test]
fn spawn_is_on_a_floor_tile() {
    let w = world_at_seed(42);
    assert!(stands(&w, f(w.player.x), f(w.player.y)));
}

/// Set a move intent and integrate `steps` fixed sub-steps of `dt` — the
/// tick's movement path, exercised without needing `Content`.
fn drive_move(w: &mut World, dx: f32, dy: f32, dt: f32, steps: usize) {
    for _ in 0..steps {
        apply(w, go(dx, dy));
        integrate_movement(w, dt);
    }
}

#[test]
fn move_command_advances_player_on_floor() {
    let mut w = world_at_seed(42);
    let (x0, y0) = (f(w.player.x), f(w.player.y));
    // Momentum ramps in, so drive several sub-steps to build velocity.
    drive_move(&mut w, 1.0, 0.0, 0.05, 8);
    assert!(stands(&w, f(w.player.x), f(w.player.y)));
    assert!((f(w.player.y) - y0).abs() < 1e-6);
    if stands(&w, x0 + 1.0, y0) {
        assert!(f(w.player.x) > x0);
    }
}

#[test]
fn wall_blocks_movement_on_the_blocked_axis_only() {
    let mut w = World::new(single_floor_map());
    let (x0, y0) = (f(w.player.x), f(w.player.y));
    // A single 1×1-floor tile: both axes are walled at the edges, so the
    // player can't leave the tile no matter how long it drives.
    drive_move(&mut w, 1.0, 1.0, 0.1, 30);
    assert!((f(w.player.x) - x0).abs() < 0.6);
    assert!((f(w.player.y) - y0).abs() < 0.6);
    assert!(stands(&w, f(w.player.x), f(w.player.y)));
}

#[test]
fn per_axis_collision_allows_sliding() {
    // Map with a corridor along y (a column of floor):
    //   #.#
    //   #.#
    //   #.#
    let w = 3;
    let h = 3;
    let mut tiles = vec![Tile::Wall; (w * h) as usize];
    for y in 0..h {
        tiles[(y * w + 1) as usize] = Tile::Floor;
    }
    let map = TileMap {
        width: w,
        height: h,
        tiles,
        rooms: vec![],
        seed: 0,
        player_spawn: (1, 1),
    };
    let mut world = World::new(map);
    // Driving diagonally down the corridor: x is bounded by the walls at
    // x=0/x=2 (stays inside the [1,2) floor column) while y slides freely
    // down the length of the corridor — the per-axis slide.
    drive_move(&mut world, 1.0, 1.0, 0.1, 20);
    assert!(f(world.player.x) < 2.0, "x never crosses into the walled column");
    assert!(f(world.player.y) > 2.5, "y slid far down the corridor");
}

#[test]
fn out_of_bounds_is_not_standable() {
    let w = world_at_seed(42);
    assert!(!stands(&w, -0.1, 5.0));
    assert!(!stands(&w, 5.0, -0.1));
    assert!(!stands(&w, w.map.width as f32 + 1.0, 5.0));
}

#[test]
fn applying_same_commands_is_deterministic() {
    let mut a = world_at_seed(42);
    let mut b = world_at_seed(42);
    let cmds = [
        go(1.0, 0.0),
        go(0.0, 1.0),
        go(-1.0, 0.0),
    ];
    for cmd in cmds {
        apply(&mut a, cmd);
        integrate_movement(&mut a, 0.05);
        apply(&mut b, cmd);
        integrate_movement(&mut b, 0.05);
    }
    assert!((f(a.player.x) - f(b.player.x)).abs() < 1e-6);
    assert!((f(a.player.y) - f(b.player.y)).abs() < 1e-6);
    // And they actually moved (velocity built up), not a trivial pass.
    assert!(f(a.player.vx) != 0.0 || f(a.player.vy) != 0.0);
}

// ---- shooting ----

#[test]
fn fire_spawns_a_projectile() {
    let mut w = world_at_seed(42);
    assert_eq!(w.projectiles.len(), 0);
    apply(&mut w, fire(1.0, 0.0));
    assert_eq!(w.projectiles.len(), 1);
    let p = &w.projectiles[0];
    assert!((f(p.x) - f(w.player.x)).abs() < 1e-6);
    assert!((f(p.y) - f(w.player.y)).abs() < 1e-6);
    assert!((f(p.vx) - k(PROJECTILE_SPEED)).abs() < 1e-4);
    assert!(f(p.vy).abs() < 1e-4);
    assert!(f(p.damage) > 0.0);
    assert!(f(w.player_fire_cooldown) > 0.0);
}

#[test]
fn fire_respects_cooldown() {
    let mut w = world_at_seed(42);
    apply(&mut w, fire(1.0, 0.0));
    apply(&mut w, fire(1.0, 0.0));
    apply(&mut w, fire(1.0, 0.0));
    // Three fires in the same frame — only the first should spawn.
    assert_eq!(w.projectiles.len(), 1);
}

#[test]
fn cooldown_expires_with_tick() {
    let mut w = world_at_seed(42);
    apply(&mut w, fire(1.0, 0.0));
    // Tick past the cooldown window (1/FIRE_RATE = 0.25s).
    tick(&mut w, 0.30, &Content::empty());
    assert_eq!(f(w.player_fire_cooldown), 0.0);
    apply(&mut w, fire(1.0, 0.0));
    assert_eq!(w.projectiles.len(), 2);
}

#[test]
fn zero_vector_fire_is_ignored() {
    let mut w = world_at_seed(42);
    apply(&mut w, fire(0.0, 0.0));
    assert_eq!(w.projectiles.len(), 0);
    assert_eq!(f(w.player_fire_cooldown), 0.0);
}

#[test]
fn projectile_advances_with_tick() {
    let mut w = world_at_seed(42);
    apply(&mut w, fire(1.0, 0.0));
    let x0 = f(w.projectiles[0].x);
    tick(&mut w, 0.05, &Content::empty());
    // Either advanced or died on a wall — but didn't sit still.
    if let Some(p) = w.projectiles.first() {
        assert!(f(p.x) > x0, "projectile should have moved +x");
    }
}

#[test]
fn projectile_despawns_on_wall_collision() {
    // 5×3 corridor, single floor row. Fire eastward from (1,1); the
    // projectile dies as soon as it reaches the east wall.
    let w = 5;
    let h = 3;
    let mut tiles = vec![Tile::Wall; (w * h) as usize];
    for x in 1..=3u32 {
        tiles[(w + x) as usize] = Tile::Floor;
    }
    let map = TileMap {
        width: w,
        height: h,
        tiles,
        rooms: vec![],
        seed: 0,
        player_spawn: (1, 1),
    };
    let mut world = World::new(map);
    apply(&mut world, fire(1.0, 0.0));
    // PROJECTILE_SPEED is 24 tiles/s; well within 0.2s a shot crosses
    // the 3-floor-wide corridor and hits the east wall.
    tick(&mut world, 0.20, &Content::empty());
    assert!(world.projectiles.is_empty(), "projectile should hit the east wall");
}

#[test]
fn projectile_despawns_on_lifetime_expiry() {
    let mut w = world_at_seed(42);
    apply(&mut w, fire(1.0, 0.0));
    // Force expiry without any wall in the way by ticking past lifetime.
    tick(&mut w, k(BULLET_LIFETIME) + 0.1, &Content::empty());
    assert!(w.projectiles.is_empty());
}

#[test]
fn multiple_projectiles_coexist() {
    let mut w = world_at_seed(42);
    apply(&mut w, fire(1.0, 0.0));
    tick(&mut w, 0.30, &Content::empty()); // cooldown clears
    apply(&mut w, fire(0.0, 1.0));
    tick(&mut w, 0.30, &Content::empty());
    apply(&mut w, fire(-1.0, 0.0));
    // Three distinct shots in flight (assuming none have hit walls yet).
    assert!(!w.projectiles.is_empty());
}

// ---- enemies: spawning ----

#[test]
fn wave_spawns_after_the_interval() {
    let mut w = world_at_seed(42);
    let content = Content {
        enemies: vec![test_enemy("basic_zombie", 100.0)],
        ..Content::empty()
    };
    assert!(w.enemies.is_empty());
    // One tick across the spawn interval triggers a wave.
    tick(&mut w, k(SPAWN_INTERVAL), &content);
    assert!(!w.enemies.is_empty(), "a wave should have spawned");
    assert!(w.enemies.len() <= SPAWN_BATCH);
    // Spawned away from the player.
    for e in &w.enemies {
        let dx = f(e.x) - f(w.player.x);
        let dy = f(e.y) - f(w.player.y);
        assert!((dx * dx + dy * dy).sqrt() >= SPAWN_MIN_DISTANCE as f32 - 1.0);
    }
    // Every spawned entity has a unique id.
    let mut ids: Vec<u64> = w.enemies.iter().map(|e| e.id).collect();
    ids.sort_unstable();
    ids.dedup();
    assert_eq!(ids.len(), w.enemies.len());
}

#[test]
fn no_spawn_without_enemy_content() {
    let mut w = world_at_seed(42);
    tick(&mut w, k(SPAWN_INTERVAL) * 3.0, &Content::empty());
    assert!(w.enemies.is_empty());
}

// ---- enemies: pathing ----

#[test]
fn enemy_converges_on_player() {
    let mut w = world_at_seed(42);
    // Place an enemy on the farthest reachable tile from the player.
    let (mut far_tile, mut far_d) = ((0u32, 0u32), 0u32);
    for ty in 0..w.map.height {
        for tx in 0..w.map.width {
            let d = w.flow.distance_at(tx, ty);
            if d != UNREACHABLE && d > far_d {
                far_d = d;
                far_tile = (tx, ty);
            }
        }
    }
    let e = EnemyInstance {
        id: 999,
        x: s(far_tile.0 as f32 + 0.5),
        y: s(far_tile.1 as f32 + 0.5),
        archetype: 0,
        combatant: Combatant::dummy(s(100.0)),
        speed: s(4.0),
        awake: true,
        facing: s(0.0),
    };
    add_enemy(&mut w, e);
    let start = w.flow.distance_at(far_tile.0, far_tile.1);
    // Several ticks of pure pathing (no content needed for movement).
    for _ in 0..120 {
        tick(&mut w, 0.05, &Content::empty());
    }
    let e = &w.enemies[0];
    let now = w.flow.distance_at(f(e.x) as u32, f(e.y) as u32);
    assert!(now < start, "enemy should be closer to the player (flow {now} < {start})");
}

/// An all-floor `w×h` room with the spawn at the center — open space for
/// movement/steering tests (no walls to route around).
fn open_room(w: u32, h: u32) -> TileMap {
    TileMap {
        width: w,
        height: h,
        tiles: vec![Tile::Floor; (w * h) as usize],
        rooms: vec![],
        seed: 0,
        player_spawn: (w / 2, h / 2),
    }
}

#[test]
fn stacked_enemies_separate() {
    let mut w = World::new(open_room(21, 21));
    // Two enemies almost on top of each other, offset along y, both left of
    // the player (so their seek directions are nearly identical and
    // separation is what spreads them).
    let (bx, by) = (f(w.player.x) - 4.0, f(w.player.y));
    for (k, dy) in [0.05_f32, -0.05].into_iter().enumerate() {
        let e = EnemyInstance {
            id: k as u64,
            x: s(bx),
            y: s(by + dy),
            archetype: 0,
            combatant: Combatant::dummy(s(100.0)),
            speed: s(3.0),
            awake: false,
            facing: s(0.0),
        };
        add_enemy(&mut w, e);
    }
    let gap0 = (f(w.enemies[0].y) - f(w.enemies[1].y)).abs();
    for _ in 0..10 {
        tick(&mut w, 0.05, &Content::empty());
    }
    let gap1 = (f(w.enemies[0].y) - f(w.enemies[1].y)).abs();
    assert!(gap1 > gap0, "separation should spread stacked enemies ({gap0} -> {gap1})");
}

#[test]
fn separation_off_lets_them_overlap() {
    let mut w = World::new(open_room(21, 21));
    w.tunables.separation_weight = s(0.0);
    let (bx, by) = (f(w.player.x) - 4.0, f(w.player.y));
    for (k, dy) in [0.05_f32, -0.05].into_iter().enumerate() {
        let e = EnemyInstance {
            id: k as u64,
            x: s(bx),
            y: s(by + dy),
            archetype: 0,
            combatant: Combatant::dummy(s(100.0)),
            speed: s(3.0),
            awake: false,
            facing: s(0.0),
        };
        add_enemy(&mut w, e);
    }
    let gap0 = (f(w.enemies[0].y) - f(w.enemies[1].y)).abs();
    for _ in 0..10 {
        tick(&mut w, 0.05, &Content::empty());
    }
    let gap1 = (f(w.enemies[0].y) - f(w.enemies[1].y)).abs();
    // Both beeline at the same player with no push apart — gap shouldn't grow.
    assert!(gap1 <= gap0 + 1e-3, "no separation → no spreading ({gap0} -> {gap1})");
}

#[test]
fn open_space_enemy_beelines_at_player() {
    // In open space (clear line of sight) a diagonal approach should head
    // straight at the player, not down a cardinal lane — the displacement
    // stays parallel to the enemy→player vector.
    let mut w = World::new(open_room(21, 21));
    let (sx, sy) = (f(w.player.x) - 3.0, f(w.player.y) - 3.0);
    let e = EnemyInstance {
        id: 1,
        x: s(sx),
        y: s(sy),
        archetype: 0,
        combatant: Combatant::dummy(s(100.0)),
        speed: s(3.0),
        awake: false,
        facing: s(0.0),
    };
    add_enemy(&mut w, e);
    tick(&mut w, 0.05, &Content::empty());
    let e = &w.enemies[0];
    let moved = (f(e.x) - sx, f(e.y) - sy);
    // A straight beeline from a 45° offset moves x and y about equally.
    assert!(moved.0 > 1e-3 && moved.1 > 1e-3, "should move on both axes");
    assert!(
        (moved.0 - moved.1).abs() < 0.2 * moved.0.max(moved.1),
        "diagonal beeline should move x≈y, got {moved:?}"
    );
}

#[test]
fn los_range_gates_the_beeline() {
    // Shallow-diagonal offset (6 east, 1 north of the player). A beeline
    // moves mostly along x (small y/x); the Manhattan flow field instead
    // pulls a 45° diagonal (y ≈ x). So disabling LOS should make the
    // approach noticeably more diagonal.
    let run = |los: f32| -> f32 {
        let mut w = World::new(open_room(31, 31));
        w.tunables.los_range = s(los);
        w.tunables.separation_weight = s(0.0);
        let (sx, sy) = (f(w.player.x) - 6.0, f(w.player.y) - 1.0);
        let e = EnemyInstance {
            id: 1,
            x: s(sx),
            y: s(sy),
            archetype: 0,
            combatant: Combatant::dummy(s(100.0)),
            speed: s(3.0),
            awake: false,
            facing: s(0.0),
        };
        add_enemy(&mut w, e);
        tick(&mut w, 0.05, &Content::empty());
        let e = &w.enemies[0];
        (f(e.y) - sy) / (f(e.x) - sx) // y/x movement ratio
    };
    let beeline = run(50.0); // in range → straight at player, shallow
    let flow = run(0.0); // LOS off → flow field, ~45°
    assert!(
        flow > beeline + 0.1,
        "flow approach should be more diagonal than the beeline ({beeline} vs {flow})"
    );
}

#[test]
fn enemy_stays_inert_out_of_sight() {
    // Enemy spawns dormant and the player is beyond sight range — it must
    // not move.
    let mut w = World::new(open_room(41, 41));
    w.tunables.sight_range = s(5.0);
    let (sx, sy) = (f(w.player.x) - 12.0, f(w.player.y)); // 12 > 5: never spotted
    let e = EnemyInstance {
        id: 1,
        x: s(sx),
        y: s(sy),
        archetype: 0,
        combatant: Combatant::dummy(s(100.0)),
        speed: s(3.0),
        awake: false,
        facing: s(0.0),
    };
    add_enemy(&mut w, e);
    for _ in 0..20 {
        tick(&mut w, 0.05, &Content::empty());
    }
    assert!(!w.enemies[0].awake, "should stay dormant out of sight");
    assert!(
        (f(w.enemies[0].x) - sx).abs() < 1e-4 && (f(w.enemies[0].y) - sy).abs() < 1e-4,
        "inert enemy should not have moved"
    );
}

#[test]
fn enemy_wakes_and_chases_when_spotted() {
    let mut w = World::new(open_room(41, 41));
    w.tunables.sight_range = s(20.0);
    let (sx, sy) = (f(w.player.x) - 8.0, f(w.player.y)); // 8 < 20, clear line
    let e = EnemyInstance {
        id: 1,
        x: s(sx),
        y: s(sy),
        archetype: 0,
        combatant: Combatant::dummy(s(100.0)),
        speed: s(3.0),
        awake: false,
        facing: s(0.0),
    };
    add_enemy(&mut w, e);
    tick(&mut w, 0.1, &Content::empty());
    assert!(w.enemies[0].awake, "in-sight player should wake the enemy");
    assert!(f(w.enemies[0].x) > sx, "woken enemy should advance on the player");
}

#[test]
fn projectile_hit_wakes_a_dormant_enemy() {
    // Sight disabled, so only the shot can wake it.
    let mut w = World::new(single_floor_map());
    w.tunables.sight_range = s(0.0);
    let e = EnemyInstance {
        id: 1,
        x: s(f(w.player.x) + 0.3),
        y: w.player.y,
        archetype: 0,
        combatant: Combatant::dummy(s(1000.0)),
        speed: s(0.0),
        awake: false,
        facing: s(0.0),
    };
    add_enemy(&mut w, e);
    assert!(!w.enemies[0].awake);
    apply(&mut w, fire(1.0, 0.0));
    tick(&mut w, 0.02, &Content::empty());
    assert!(w.enemies[0].awake, "getting shot should wake the enemy");
}

// ---- enemies: hit detection + kills ----

#[test]
fn projectile_hits_and_damages_enemy() {
    let mut w = World::new(single_floor_map());
    // Enemy a hair to the +x side of the player, within the same tile.
    let e = EnemyInstance {
        id: 1,
        x: s(f(w.player.x) + 0.3),
        y: w.player.y,
        archetype: 0,
        combatant: Combatant::dummy(s(1000.0)),
        speed: s(0.0),
        awake: false,
        facing: s(0.0),
    };
    add_enemy(&mut w, e);
    apply(&mut w, fire(1.0, 0.0));
    tick(&mut w, 0.02, &Content::empty());
    // Projectile consumed by the hit; enemy took BULLET_DAMAGE.
    assert!(w.projectiles.is_empty(), "projectile should be consumed on hit");
    assert!((f(w.enemies[0].combatant.current_life) - (1000.0 - k(BULLET_DAMAGE))).abs() < 1e-3);
}

#[test]
fn lethal_hit_kills_awards_xp_and_can_drop() {
    let mut w = World::new(single_floor_map());
    let content = Content {
        enemies: vec![test_enemy("basic_zombie", 1.0)],
        ..Content::empty()
    };
    let e = EnemyInstance {
        id: 1,
        x: s(f(w.player.x) + 0.3),
        y: w.player.y,
        archetype: 0,
        combatant: Combatant::dummy(s(1.0)), // dies to one shot
        speed: s(0.0),
        awake: false,
        facing: s(0.0),
    };
    add_enemy(&mut w, e);
    apply(&mut w, fire(1.0, 0.0));
    tick(&mut w, 0.02, &content);
    assert!(w.enemies.is_empty(), "enemy should be dead");
    assert_eq!(w.kills, 1);
    assert_eq!(w.xp, 10);
    // No bases in content → no item rolled, drops stay empty.
    assert!(w.drops.is_empty());
}

// ---- loot pickup ----

#[test]
fn walking_over_a_drop_collects_it() {
    let mut w = World::new(single_floor_map());
    assert!(w.inventory.is_empty());
    let d = LootDrop {
        id: 7,
        x: w.player.x, // right on top of the player
        y: w.player.y,
        item: dummy_item(),
    };
    add_drop(&mut w, d);
    tick(&mut w, 0.016, &Content::empty());
    assert!(w.drops.is_empty(), "drop should be collected");
    assert_eq!(w.inventory.len(), 1);
    assert!(w.last_pickup.is_some());
}

#[test]
fn distant_drop_is_not_collected() {
    let mut w = world_at_seed(42);
    let d = LootDrop {
        id: 8,
        x: s(f(w.player.x) + 5.0),
        y: w.player.y,
        item: dummy_item(),
    };
    add_drop(&mut w, d);
    tick(&mut w, 0.016, &Content::empty());
    assert_eq!(w.drops.len(), 1);
    assert!(w.inventory.is_empty());
}

// ---- contact damage + game over ----

#[test]
fn touching_enemy_drains_life_and_can_end_the_game() {
    let mut w = World::new(single_floor_map());
    w.player.current_life = s(1.0);
    let e = EnemyInstance {
        id: 1,
        x: w.player.x,
        y: w.player.y,
        archetype: 0,
        combatant: Combatant::dummy(s(100.0)),
        speed: s(0.0),
        awake: false,
        facing: s(0.0),
    };
    add_enemy(&mut w, e);
    tick(&mut w, 1.0, &Content::empty()); // CONTACT_DPS × 1s = 8 dmg > 1 life
    assert!(f(w.player.current_life) <= 0.0);
    assert!(w.game_over);
    // Once over, tick is inert.
    let cmds_before = w.kills;
    tick(&mut w, 1.0, &Content::empty());
    assert_eq!(w.kills, cmds_before);
}

// ---- debug / tunables ----

#[test]
fn tunables_default_matches_the_constants() {
    let t = Tunables::default();
    assert_eq!(f(t.player_speed), k(PLAYER_SPEED));
    assert_eq!(f(t.player_accel), k(PLAYER_ACCEL));
    assert_eq!(f(t.bullet_damage), k(BULLET_DAMAGE));
    assert_eq!(f(t.fire_rate), k(FIRE_RATE));
    assert_eq!(f(t.spawn_interval), k(SPAWN_INTERVAL));
    assert!(t.auto_spawn);
    assert!(!t.god_mode);
    assert_eq!(f(t.enemy_speed_mult), 1.0);
    // Default composition is all-zero ⇒ uniform spawns.
    assert_eq!(t.spawn_weights, [0; MAX_SPAWN_ARCHETYPES]);
}

#[test]
fn zero_weights_pick_uniformly_across_the_roster() {
    // All-zero weights → any archetype in 0..n can come up.
    let weights = [0u32; MAX_SPAWN_ARCHETYPES];
    let mut rng = SeededRng::seed_from_u64(7);
    let mut seen = [false; 3];
    for _ in 0..200 {
        seen[pick_weighted_archetype(&mut rng, &weights, 3)] = true;
    }
    assert_eq!(seen, [true, true, true]);
}

#[test]
fn weights_exclude_zero_types_and_bias_the_rest() {
    // Only archetype 1 has weight → it's the only one ever picked.
    let mut weights = [0u32; MAX_SPAWN_ARCHETYPES];
    weights[1] = 5;
    let mut rng = SeededRng::seed_from_u64(7);
    for _ in 0..100 {
        assert_eq!(pick_weighted_archetype(&mut rng, &weights, 4), 1);
    }
    // A never-weighted type (index 3) stays out even with others weighted.
    weights[0] = 3;
    let mut rng = SeededRng::seed_from_u64(9);
    for _ in 0..200 {
        let idx = pick_weighted_archetype(&mut rng, &weights, 4);
        assert!(idx == 0 || idx == 1, "only weighted types spawn, got {idx}");
    }
}

#[test]
fn god_mode_blocks_contact_damage() {
    let mut w = World::new(single_floor_map());
    w.tunables.god_mode = true;
    w.player.current_life = s(5.0);
    let e = EnemyInstance {
        id: 1,
        x: w.player.x,
        y: w.player.y,
        archetype: 0,
        combatant: Combatant::dummy(s(100.0)),
        speed: s(0.0),
        awake: false,
        facing: s(0.0),
    };
    add_enemy(&mut w, e);
    tick(&mut w, 1.0, &Content::empty());
    assert_eq!(f(w.player.current_life), 5.0, "god mode should negate contact damage");
    assert!(!w.game_over);
}

#[test]
fn auto_spawn_off_suspends_waves() {
    let mut w = world_at_seed(42);
    w.tunables.auto_spawn = false;
    let content = Content {
        enemies: vec![test_enemy("basic_zombie", 100.0)],
        ..Content::empty()
    };
    tick(&mut w, k(SPAWN_INTERVAL) * 3.0, &content);
    assert!(w.enemies.is_empty(), "no waves while auto_spawn is off");
}

#[test]
fn bullet_damage_tunable_drives_hits() {
    let mut w = World::new(single_floor_map());
    w.tunables.bullet_damage = s(50.0);
    let e = EnemyInstance {
        id: 1,
        x: s(f(w.player.x) + 0.3),
        y: w.player.y,
        archetype: 0,
        combatant: Combatant::dummy(s(1000.0)),
        speed: s(0.0),
        awake: false,
        facing: s(0.0),
    };
    add_enemy(&mut w, e);
    apply(&mut w, fire(1.0, 0.0));
    tick(&mut w, 0.02, &Content::empty());
    assert!((f(w.enemies[0].combatant.current_life) - 950.0).abs() < 1e-3);
    assert!(matches!(w.last_hit, Some(HitResult::Hit { .. })));
}

#[test]
fn debug_spawn_and_clear() {
    let mut w = world_at_seed(42);
    let content = Content {
        enemies: vec![test_enemy("basic_zombie", 100.0)],
        ..Content::empty()
    };
    w.debug_spawn(0, 5, SPAWN_MIN_DISTANCE, &content);
    assert!(!w.enemies.is_empty(), "debug spawn should place enemies");
    // Unique ids, like wave spawns.
    let mut ids: Vec<u64> = w.enemies.iter().map(|e| e.id).collect();
    ids.sort_unstable();
    ids.dedup();
    assert_eq!(ids.len(), w.enemies.len());
    w.debug_clear_enemies();
    assert!(w.enemies.is_empty());
}

#[test]
fn debug_drop_forces_a_base_at_a_position() {
    let content = weapon_content();
    let mut w = World::new(single_floor_map());
    assert!(w.drops.is_empty());
    w.debug_drop(s(2.0), s(3.0), Some("cannon"), Rarity::Rare, 20, &content);
    assert_eq!(w.drops.len(), 1);
    assert_eq!(w.drops[0].item.base, "cannon");
    assert_eq!((f(w.drops[0].x), f(w.drops[0].y)), (2.0, 3.0));
}

#[test]
fn debug_drop_random_base_and_unknown_base() {
    let content = weapon_content();
    let mut w = World::new(single_floor_map());
    // Random base → some weapon/armor drop lands.
    w.debug_drop(s(1.0), s(1.0), None, Rarity::Common, 10, &content);
    assert_eq!(w.drops.len(), 1);
    // Unknown forced base → no-op.
    w.debug_drop(s(1.0), s(1.0), Some("raygun"), Rarity::Common, 10, &content);
    assert_eq!(w.drops.len(), 1, "unknown base drops nothing");
}

#[test]
fn debug_revive_restores_life_after_death() {
    let mut w = World::new(single_floor_map());
    w.player.current_life = s(0.0);
    tick(&mut w, 0.1, &Content::empty());
    assert!(w.game_over);
    w.debug_revive();
    assert!(!w.game_over);
    assert_eq!(f(w.player.current_life), f(w.player.max_life));
}

// ---- determinism of the event model ----

#[test]
fn same_seed_same_spawn_outcome() {
    let content = Content {
        enemies: vec![
            test_enemy("basic_zombie", 100.0),
            test_enemy("fast_zombie", 60.0),
        ],
        ..Content::empty()
    };
    let mut a = world_at_seed(7);
    let mut b = world_at_seed(7);
    tick(&mut a, k(SPAWN_INTERVAL), &content);
    tick(&mut b, k(SPAWN_INTERVAL), &content);
    assert_eq!(a.enemies.len(), b.enemies.len());
    for (ea, eb) in a.enemies.iter().zip(b.enemies.iter()) {
        assert_eq!(ea.archetype, eb.archetype);
        assert!((f(ea.x) - f(eb.x)).abs() < 1e-6);
        assert!((f(ea.y) - f(eb.y)).abs() < 1e-6);
    }
}

// ---- loadout / equip ----

#[test]
fn equip_base_arms_and_drives_the_fire_path() {
    let content = weapon_content();
    let mut w = World::new(single_floor_map());
    assert!(equip_base(&mut w, "cannon", &content));
    let eq = w.equipped().expect("should be armed");
    assert_eq!(eq.name, "Cannon");
    assert_eq!(eq.item.base, "cannon");
    // Weapon-derived stats routed into the tunables the fire path reads.
    assert_eq!(f(w.tunables.bullet_damage), 50.0);
    assert_eq!(f(w.tunables.fire_rate), 4.0);
    // End to end: a fired projectile carries the equipped weapon's damage.
    apply(&mut w, fire(1.0, 0.0));
    assert_eq!(f(w.projectiles[0].damage), 50.0);
}

#[test]
fn equip_rejects_non_weapon_and_unknown_bases() {
    let content = weapon_content();
    let mut w = World::new(single_floor_map());
    assert!(!equip(&mut w, instance("helm"), &content), "armor isn't a weapon");
    assert!(!equip_base(&mut w, "raygun", &content), "unknown base id");
    assert!(w.equipped().is_none());
}

#[test]
fn picking_up_a_better_weapon_auto_equips() {
    let content = weapon_content();
    let mut w = World::new(single_floor_map());
    equip_base(&mut w, "pistol", &content); // 48 dps
    drop_on_player(&mut w, "cannon"); // 200 dps — strict upgrade
    tick(&mut w, 0.016, &content);

    assert!(w.drops.is_empty(), "drop collected");
    assert_eq!(w.equipped().unwrap().item.base, "cannon");
    assert_eq!(f(w.tunables.bullet_damage), 50.0);
    assert!(w.last_pickup.as_deref().unwrap().starts_with("equipped"));
    // A new archetype that's equipped lives in the rack, not the bag.
    assert_eq!(w.loadout().len(), 2);
    assert!(w.inventory.is_empty());
}

#[test]
fn picking_up_a_worse_weapon_keeps_the_current_one() {
    let content = weapon_content();
    let mut w = World::new(single_floor_map());
    equip_base(&mut w, "cannon", &content); // 200 dps
    drop_on_player(&mut w, "peashooter"); // 1 dps — a new, weaker archetype
    tick(&mut w, 0.016, &content);

    // Different archetype → joins the rack (switchable) but doesn't auto-equip.
    assert_eq!(w.equipped().unwrap().item.base, "cannon", "no swap");
    assert_eq!(f(w.tunables.bullet_damage), 50.0);
    assert!(!w.last_pickup.as_deref().unwrap().starts_with("equipped"));
    assert_eq!(w.loadout().len(), 2);
    assert!(w.inventory.is_empty());
}

// ---- archetypes: fire profiles ----

#[test]
fn pistol_fires_a_single_shot() {
    let content = weapon_content();
    let mut w = World::new(single_floor_map());
    equip_base(&mut w, "pistol", &content);
    apply(&mut w, fire(1.0, 0.0));
    assert_eq!(w.projectiles.len(), 1);
    assert_eq!(f(w.projectiles[0].aoe_radius), 0.0);
}

#[test]
fn shotgun_fires_a_damage_split_pellet_spread() {
    let content = weapon_content();
    let mut w = World::new(single_floor_map());
    equip_base(&mut w, "shotgun", &content);
    let total = f(w.tunables.bullet_damage); // 36
    apply(&mut w, fire(1.0, 0.0));
    // Six pellets, each a sixth of the damage, none explosive.
    assert_eq!(w.projectiles.len(), 6);
    for p in &w.projectiles {
        assert!((f(p.damage) - total / 6.0).abs() < 1e-3);
        assert_eq!(f(p.aoe_radius), 0.0);
    }
    // The fan actually spreads: a horizontal shot gets some vertical pellets.
    assert!(
        w.projectiles.iter().any(|p| f(p.vy).abs() > 1e-3),
        "pellets should fan out, not fire parallel"
    );
}

#[test]
fn equipping_seeds_the_archetype_tunables() {
    let content = weapon_content();
    let mut w = World::new(single_floor_map());
    equip_base(&mut w, "shotgun", &content);
    assert_eq!(w.tunables.spread_pellets, 6);
    assert!((f(w.tunables.spread_angle) - 0.28).abs() < 1e-6);
    equip_base(&mut w, "rocket_launcher", &content);
    assert!((f(w.tunables.blast_radius) - 1.6).abs() < 1e-6);
    assert!((f(w.tunables.blast_speed_factor) - 0.55).abs() < 1e-6);
}

#[test]
fn spread_pellet_count_is_live_tunable() {
    let content = weapon_content();
    let mut w = World::new(single_floor_map());
    equip_base(&mut w, "shotgun", &content);
    let total = f(w.tunables.bullet_damage);
    // Override the seeded pellet count — the fire path reads the tunable.
    w.tunables.spread_pellets = 10;
    apply(&mut w, fire(1.0, 0.0));
    assert_eq!(w.projectiles.len(), 10);
    for p in &w.projectiles {
        assert!((f(p.damage) - total / 10.0).abs() < 1e-3);
    }
}

#[test]
fn blast_radius_is_live_tunable() {
    let content = weapon_content();
    let mut w = World::new(open_room(21, 21));
    equip_base(&mut w, "rocket_launcher", &content);
    // Shrink the blast so a neighbor 1.2 tiles away is now outside it.
    w.tunables.blast_radius = s(0.5);
    let (ex, ey) = (f(w.player.x) + 4.0, f(w.player.y));
    for (k, off) in [0.0_f32, 1.2].into_iter().enumerate() {
        let e = EnemyInstance {
            id: k as u64,
            x: s(ex),
            y: s(ey + off),
            archetype: 0,
            combatant: Combatant::dummy(s(1000.0)),
            speed: s(0.0),
            awake: true,
            facing: s(0.0),
        };
        add_enemy(&mut w, e);
    }
    apply(&mut w, fire(1.0, 0.0));
    for _ in 0..40 {
        tick(&mut w, 0.03, &content);
        if w.projectiles.is_empty() {
            break;
        }
    }
    // Direct-hit enemy damaged; the far one survives the shrunken blast.
    assert!(f(w.enemies[0].combatant.current_life) < 1000.0, "direct hit");
    assert_eq!(
        f(w.enemies[1].combatant.current_life), 1000.0,
        "neighbor outside the shrunken blast is spared"
    );
}

#[test]
fn rocket_is_a_single_slow_explosive_shot() {
    let content = weapon_content();
    let mut w = World::new(single_floor_map());
    equip_base(&mut w, "rocket_launcher", &content);
    apply(&mut w, fire(1.0, 0.0));
    assert_eq!(w.projectiles.len(), 1);
    let p = &w.projectiles[0];
    assert!(f(p.aoe_radius) > 0.0, "rocket carries a blast radius");
    // speed_factor < 1 → slower than the raw projectile speed.
    assert!(f(p.vx) < f(w.tunables.projectile_speed));
}

#[test]
fn rocket_blast_damages_every_enemy_in_radius() {
    let content = weapon_content();
    let mut w = World::new(open_room(21, 21));
    equip_base(&mut w, "rocket_launcher", &content);
    // Two stationary enemies clustered to the +x side, both inside the blast.
    let (ex, ey) = (f(w.player.x) + 4.0, f(w.player.y));
    for (k, off) in [0.0_f32, 0.8].into_iter().enumerate() {
        let e = EnemyInstance {
            id: k as u64,
            x: s(ex),
            y: s(ey + off),
            archetype: 0,
            combatant: Combatant::dummy(s(1000.0)),
            speed: s(0.0),
            awake: true,
            facing: s(0.0),
        };
        add_enemy(&mut w, e);
    }
    apply(&mut w, fire(1.0, 0.0));
    for _ in 0..40 {
        tick(&mut w, 0.03, &content);
        if w.projectiles.is_empty() {
            break;
        }
    }
    assert!(
        w.enemies.iter().all(|e| f(e.combatant.current_life) < 1000.0),
        "both enemies should be caught in one blast"
    );
    assert!(!w.explosions.is_empty(), "a blast marker should spawn");
}

#[test]
fn rocket_detonates_against_a_wall() {
    let content = weapon_content();
    let mut w = World::new(single_floor_map());
    equip_base(&mut w, "rocket_launcher", &content);
    apply(&mut w, fire(1.0, 0.0));
    for _ in 0..30 {
        tick(&mut w, 0.02, &content);
        if w.projectiles.is_empty() {
            break;
        }
    }
    assert!(w.projectiles.is_empty(), "rocket consumed on the wall");
    assert!(!w.explosions.is_empty(), "wall impact still detonates");
}

#[test]
fn explosion_markers_age_out() {
    let mut w = World::new(single_floor_map());
    w.explosions.push(Explosion {
        x: s(1.5),
        y: s(1.5),
        radius: s(1.5),
        ttl: s(k(EXPLOSION_TTL)),
        max_ttl: s(k(EXPLOSION_TTL)),
    });
    tick(&mut w, k(EXPLOSION_TTL) + 0.05, &Content::empty());
    assert!(w.explosions.is_empty(), "expired blast markers are culled");
}

#[test]
fn picking_up_armor_never_arms_the_gun() {
    let content = weapon_content();
    let mut w = World::new(single_floor_map());
    equip_base(&mut w, "pistol", &content);
    drop_on_player(&mut w, "helm");
    tick(&mut w, 0.016, &content);

    assert_eq!(w.equipped().unwrap().item.base, "pistol");
    assert!(!w.last_pickup.as_deref().unwrap().starts_with("equipped"));
    assert_eq!(w.inventory.len(), 1);
}

// ---- weapon switching ----

#[test]
fn rack_starts_empty_until_armed() {
    let content = weapon_content();
    let mut w = World::new(single_floor_map());
    assert!(w.equipped().is_none());
    assert!(w.loadout().is_empty());
    equip_base(&mut w, "pistol", &content);
    assert_eq!(w.loadout().len(), 1);
    assert_eq!(w.active_slot(), 0);
}

#[test]
fn switching_changes_active_weapon_and_stats() {
    let content = weapon_content();
    let mut w = World::new(single_floor_map());
    equip_base(&mut w, "pistol", &content); // slot 0
    equip(&mut w, instance("cannon"), &content); // slot 1, now active
    assert_eq!(w.active_slot(), 1);
    assert_eq!(f(w.tunables.bullet_damage), 50.0);

    // Number-key path through the command stream.
    apply(&mut w, Command::SwitchWeapon { slot: 0 });
    assert_eq!(w.equipped().unwrap().item.base, "pistol");
    assert_eq!(f(w.tunables.bullet_damage), 12.0);
    apply(&mut w, Command::SwitchWeapon { slot: 1 });
    assert_eq!(f(w.tunables.bullet_damage), 50.0);
}

#[test]
fn cycle_wraps_through_the_rack() {
    let content = weapon_content();
    let mut w = World::new(single_floor_map());
    equip_base(&mut w, "pistol", &content); // 0
    equip(&mut w, instance("cannon"), &content); // 1 (active)
    apply(&mut w, Command::CycleWeapon { dir: 1 }); // 1 -> 0 (wrap)
    assert_eq!(w.active_slot(), 0);
    apply(&mut w, Command::CycleWeapon { dir: 1 }); // 0 -> 1
    assert_eq!(w.active_slot(), 1);
    apply(&mut w, Command::CycleWeapon { dir: -1 }); // 1 -> 0
    assert_eq!(w.active_slot(), 0);
}

#[test]
fn switch_out_of_range_and_single_weapon_cycle_are_noops() {
    let content = weapon_content();
    let mut w = World::new(single_floor_map());
    equip_base(&mut w, "pistol", &content);
    assert!(!w.switch_weapon(5), "no slot 5");
    assert!(!w.cycle_weapon(1), "can't cycle one weapon");
    assert_eq!(w.active_slot(), 0);
    assert_eq!(w.equipped().unwrap().item.base, "pistol");
}

#[test]
fn same_archetype_keeps_one_rack_slot_rest_to_inventory() {
    let content = weapon_content();
    let mut w = World::new(single_floor_map());
    equip_base(&mut w, "pistol", &content); // stock pistol racked
    assert_eq!(w.loadout().len(), 1);

    // A stronger pistol replaces the rack slot — the rack stays length 1, the
    // displaced stock pistol falls to the bag.
    let d = LootDrop {
        id: 1,
        x: w.player.x,
        y: w.player.y,
        item: instance_tier("pistol", 5),
    };
    add_drop(&mut w, d);
    tick(&mut w, 0.016, &content);
    assert_eq!(w.loadout().len(), 1, "same archetype must not grow the rack");
    assert_eq!(w.equipped().unwrap().item.upgrade_tier, 5, "stronger one racked");
    assert_eq!(w.inventory.len(), 1, "displaced stock pistol bagged");

    // A weaker pistol doesn't displace it — straight to the bag.
    let d = LootDrop {
        id: 2,
        x: w.player.x,
        y: w.player.y,
        item: instance_tier("pistol", 0),
    };
    add_drop(&mut w, d);
    tick(&mut w, 0.016, &content);
    assert_eq!(w.loadout().len(), 1, "still one pistol slot");
    assert_eq!(w.equipped().unwrap().item.upgrade_tier, 5, "kept the stronger");
    assert_eq!(w.inventory.len(), 2, "weaker duplicate bagged");
}

#[test]
fn a_worse_pickup_joins_the_rack_but_stays_inactive() {
    let content = weapon_content();
    let mut w = World::new(single_floor_map());
    equip_base(&mut w, "cannon", &content); // 200 dps, active
    drop_on_player(&mut w, "peashooter"); // 1 dps — not an upgrade
    tick(&mut w, 0.016, &content);

    // It's switchable even though it didn't auto-equip.
    assert_eq!(w.loadout().len(), 2);
    assert_eq!(w.active_slot(), 0, "still the cannon");
    apply(&mut w, Command::SwitchWeapon { slot: 1 });
    assert_eq!(w.equipped().unwrap().item.base, "peashooter");
    assert_eq!(f(w.tunables.bullet_damage), 1.0);
}

// ---- equip from inventory (the inventory-screen path) ----

#[test]
fn equip_from_inventory_moves_item_into_rack() {
    let content = weapon_content();
    let mut w = World::new(single_floor_map());
    equip_base(&mut w, "pistol", &content); // rack[pistol], active 0
    w.inventory.push(instance("cannon"));
    assert!(equip_from_inventory(&mut w, 0, &content));
    assert!(w.inventory.is_empty(), "equipped item leaves the bag");
    assert_eq!(w.loadout().len(), 2, "cannon claims a new archetype slot");
    assert_eq!(w.equipped().unwrap().item.base, "cannon");
    assert_eq!(f(w.tunables.bullet_damage), 50.0);
}

#[test]
fn equip_from_inventory_replaces_archetype_even_with_a_weaker_pick() {
    let content = weapon_content();
    let mut w = World::new(single_floor_map());
    // Rack a strong pistol via the inventory path.
    w.inventory.push(instance_tier("pistol", 5));
    equip_from_inventory(&mut w, 0, &content);
    assert_eq!(w.equipped().unwrap().item.upgrade_tier, 5);

    // Equipping a weaker same-archetype pistol is the player's explicit
    // choice, so it replaces the rack slot; the strong one drops to the bag.
    w.inventory.push(instance_tier("pistol", 0));
    let idx = w.inventory.iter().position(|it| it.upgrade_tier == 0).unwrap();
    assert!(equip_from_inventory(&mut w, idx, &content));
    assert_eq!(w.loadout().len(), 1, "still one pistol slot");
    assert_eq!(w.equipped().unwrap().item.upgrade_tier, 0, "weaker one now held");
    assert!(
        w.inventory.iter().any(|it| it.upgrade_tier == 5),
        "displaced strong pistol back in the bag"
    );
}

#[test]
fn equip_from_inventory_rejects_armor_and_bad_index() {
    let content = weapon_content();
    let mut w = World::new(single_floor_map());
    w.inventory.push(instance("helm"));
    assert!(!equip_from_inventory(&mut w, 0, &content), "armor isn't equippable");
    assert_eq!(w.inventory.len(), 1, "armor stays in the bag");
    assert!(!equip_from_inventory(&mut w, 99, &content), "out-of-range index");
}
