//! What the screens say: the heads-up display, the inventory and the debug overlay.

use bigbox::game::entity::{Appraisal, Content, EnemyInstance};
use bigbox::game::world::World;
use bigbox::procgen::tilemap::{Tile, TileMap};
use bigbox::rules::combat::{Combatant, HitResult, Weapon};
use bigbox::rules::enemy::Enemy;
use bigbox::rules::item::{BaseItem, ItemInstance, Rarity};
use bigbox::scalar::Scalar;
use bigbox::ui::hud::{controls, death_notice, hud_update, HudFigures};
use bigbox::ui::input::Cursor;
use bigbox::ui::inventory::{
    cell_place, cells_shown, clicked, empty_note, footer, inventory_view, manage_inventory, Hover,
    InvAction, Modal, Rect, WeaponFigures,
};
use bigbox::ui::labels::{ranked, MAX_LABELS};
use bigbox::ui::overlay::{
    enemy_lines, flow_mark, identity_line, pad_lines, player_lines, shot_section, stats_footer,
    ttk_text, versus_line, weighted_archetypes, DebugUi, EnemyFigures, FlowMark, PadView,
    PlayerFigures, ShotSection, SpawnOrder,
};

fn f(x: Scalar) -> f32 {
    f32::from_bits(x.bits)
}

fn s(x: f32) -> Scalar {
    Scalar { bits: x.to_bits() }
}

fn corridor() -> TileMap {
    // 7×3 with a floor row in the middle, walled off at x = 5.
    let mut tiles = vec![Tile::Wall; 21];
    for x in [1, 2, 3, 4, 6] {
        tiles[7 + x] = Tile::Floor;
    }
    TileMap { width: 7, height: 3, tiles, rooms: vec![], seed: 0, player_spawn: (1, 1) }
}

fn base(id: &str, name: &str, slot: &str) -> BaseItem {
    BaseItem {
        id: id.into(),
        name: name.into(),
        category: slot.into(),
        slot: slot.into(),
        intrinsic_stats: vec![],
        attachment_slots: vec![],
    }
}

fn enemy(id: &str) -> Enemy {
    Enemy {
        id: id.into(),
        name: id.into(),
        category: "zombie".into(),
        ilvl: 3,
        max_life: s(100.0),
        armor: s(5.0),
        evasion: s(2.0),
        xp_value: 10,
    }
}

fn content() -> Content {
    Content {
        bases: vec![
            base("helm", "Helm", "helm"),
            base("pistol", "Pistol", "weapon"),
            base("shotgun", "Shotgun", "weapon"),
            base("rocket_launcher", "Rocket Launcher", "weapon"),
        ],
        enemies: vec![enemy("basic_zombie"), enemy("spitter")],
        affixes: vec![],
    }
}

fn item(base: &str, rarity: Rarity) -> ItemInstance {
    ItemInstance {
        base: base.into(),
        ilvl: 1,
        rarity,
        seed: 0,
        prefixes: vec![],
        suffixes: vec![],
        upgrade_tier: 0,
        attached: vec![],
    }
}

fn appraisal(damage: f32) -> Appraisal {
    let weapon = Weapon {
        damage_per_shot: s(damage),
        fire_rate: s(2.0),
        crit_chance: s(0.0),
        crit_multiplier: s(1.0),
    };
    Appraisal { weapon, rank: s(damage * 2.0) }
}

fn figures() -> HudFigures {
    HudFigures {
        life: "80".into(),
        max_life: "100".into(),
        damage: "12".into(),
        rate: "4.0".into(),
        blast_radius: "1.6".into(),
    }
}

fn zombie(id: u64, x: f32, awake: bool) -> EnemyInstance {
    EnemyInstance {
        id,
        x: s(x),
        y: s(1.5),
        archetype: 1,
        combatant: Combatant::dummy(s(100.0)),
        speed: s(3.0),
        awake,
        facing: s(0.0),
    }
}

// ---- heads-up display ----

#[test]
fn the_hud_of_a_fresh_world_names_no_weapon() {
    let w = World::new(corridor());
    let hud = hud_update(&w, &figures());
    assert_eq!(hud.health, "80 / 100");
    assert_eq!(hud.stats, "Lv 1   kills 0   xp 0   enemies 0   loot 0");
    assert_eq!(hud.weapon, "");
    assert_eq!(hud.wheel, "");
    assert_eq!(hud.pickup, "");
    assert!(!hud.dead);
}

#[test]
fn the_hud_describes_the_active_weapon() {
    let content = content();
    let mut w = World::new(corridor());
    assert!(w.equip_base("pistol", &appraisal(12.0), &content));
    assert_eq!(hud_update(&w, &figures()).weapon, "weapon: Pistol   dmg 12   rate 4.0/s");
    // One weapon needs no wheel.
    assert_eq!(hud_update(&w, &figures()).wheel, "");
    assert!(w.equip_base("shotgun", &appraisal(36.0), &content));
    let hud = hud_update(&w, &figures());
    assert_eq!(hud.weapon, "weapon: Shotgun   dmg 12   rate 4.0/s   6-pellet spread");
    assert_eq!(hud.wheel, "1:Pistol  2:Shotgun*");
    assert!(w.equip_base("rocket_launcher", &appraisal(80.0), &content));
    let hud = hud_update(&w, &figures());
    assert_eq!(hud.weapon, "weapon: Rocket Launcher   dmg 12   rate 4.0/s   blast r1.6");
    assert_eq!(hud.wheel, "1:Pistol  2:Shotgun  3:Rocket Launcher*");
    w.last_pickup = Some("Rare pistol".into());
    w.game_over = true;
    let hud = hud_update(&w, &figures());
    assert_eq!(hud.pickup, "picked up: Rare pistol");
    assert!(hud.dead);
}

#[test]
fn the_fixed_texts() {
    assert!(controls().starts_with("WASD move"));
    assert!(controls().ends_with("ESC quit"));
    let (title, hint) = death_notice();
    assert!(!title.is_empty() && !hint.is_empty());
    assert_eq!(empty_note(), "(empty — walk over drops to collect them)");
    assert_eq!(footer(), "click a weapon to equip  ·  I / Tab / Esc to close");
}

// ---- inventory ----

#[test]
fn the_inventory_lists_rack_and_bag() {
    let content = content();
    let mut w = World::new(corridor());
    w.equip_base("pistol", &appraisal(12.0), &content);
    w.equip_base("shotgun", &appraisal(36.0), &content);
    w.inventory.push(item("pistol", Rarity::Epic));
    w.inventory.push(item("helm", Rarity::Basic));
    w.inventory.push(item("lost", Rarity::Rare));
    let figures = vec![
        WeaponFigures { damage: "12".into(), rate: "2.0".into() },
        WeaponFigures { damage: "36".into(), rate: "1.0".into() },
    ];
    let view = inventory_view(&w, &content, &figures);
    assert_eq!(view.rack.len(), 2);
    assert_eq!((view.rack[0].label.as_str(), view.rack[0].active), ("1: Pistol", false));
    assert_eq!(view.rack[0].detail, "dmg 12  rate 2.0");
    assert_eq!((view.rack[1].label.as_str(), view.rack[1].active), ("2: Shotgun", true));
    assert_eq!(view.bag.len(), 3);
    assert_eq!(view.bag[0].name, "Pistol");
    assert_eq!(view.bag[0].detail, "Epic · click to equip");
    assert!(view.bag[0].equippable);
    assert_eq!(view.bag[1].name, "Helm");
    assert_eq!(view.bag[1].detail, "Basic · armor");
    // An item that nothing describes goes by its id and cannot be equipped.
    assert_eq!(view.bag[2].name, "lost");
    assert!(!view.bag[2].equippable);
}

#[test]
fn clicks_hit_what_they_are_over() {
    let content = content();
    let mut w = World::new(corridor());
    w.equip_base("pistol", &appraisal(12.0), &content);
    w.equip_base("shotgun", &appraisal(36.0), &content);
    w.inventory.push(item("helm", Rarity::Basic));
    w.inventory.push(item("pistol", Rarity::Rare));
    let figures = vec![
        WeaponFigures { damage: "12".into(), rate: "2.0".into() },
        WeaponFigures { damage: "36".into(), rate: "1.0".into() },
    ];
    let view = inventory_view(&w, &content, &figures);
    let over = |close: bool, rack: Option<usize>, bag: Option<usize>| Hover {
        close,
        rack: (0..2).map(|i| rack == Some(i)).collect(),
        bag: (0..2).map(|i| bag == Some(i)).collect(),
    };
    assert_eq!(clicked(&view, &over(true, None, None), true), Some(InvAction::Close));
    assert_eq!(clicked(&view, &over(false, Some(0), None), true), Some(InvAction::Switch(0)));
    assert_eq!(clicked(&view, &over(false, None, Some(1)), true), Some(InvAction::Equip(1)));
    // Beyond the last slot there is nothing to switch to.
    let beyond = Hover { close: false, rack: vec![false, true, true], bag: vec![] };
    assert_eq!(clicked(&view, &beyond, true), Some(InvAction::Switch(1)));
    let beyond = Hover { close: false, rack: vec![false, false, true], bag: vec![] };
    assert_eq!(clicked(&view, &beyond, true), None);
    // Armor does not answer, nor does anything without a click.
    assert_eq!(clicked(&view, &over(false, None, Some(0)), true), None);
    assert_eq!(clicked(&view, &over(true, Some(0), Some(1)), false), None);

    // What the click asks for is done.
    assert!(w.inventory_click(InvAction::Switch(0), &appraisal(0.0), &content));
    assert_eq!(w.active_slot(), 0);
    assert!(w.inventory_click(InvAction::Equip(1), &appraisal(99.0), &content));
    assert_eq!(f(w.tunables.bullet_damage), 99.0);
    assert_eq!(w.inventory.len(), 2, "the stock pistol takes the place in the bag");
    assert!(!w.inventory_click(InvAction::Close, &appraisal(0.0), &content));
}

#[test]
fn cells_fill_row_by_row() {
    assert_eq!(cell_place(0), (0, 0));
    assert_eq!(cell_place(5), (1, 1));
    assert_eq!(cell_place(6), (2, 1));
    assert_eq!(cells_shown(3, 2), 3);
    assert_eq!(cells_shown(30, 2), 8);
    assert_eq!(cells_shown(30, usize::MAX), 30);
    let r = Rect { left: s(1.0), top: s(1.0), right: s(3.0), bottom: s(2.0) };
    assert!(r.contains(&s(2.0), &s(1.5)));
    assert!(!r.contains(&s(4.0), &s(1.5)));
    assert!(!r.contains(&s(2.0), &s(0.5)));
}

#[test]
fn the_modal_follows_the_flag() {
    assert_eq!(manage_inventory(true, false), Modal::Spawn);
    assert_eq!(manage_inventory(false, true), Modal::Despawn);
    assert_eq!(manage_inventory(true, true), Modal::Keep);
    assert_eq!(manage_inventory(false, false), Modal::Keep);
}

// ---- labels ----

#[test]
fn the_nearest_enemies_get_labels() {
    let d2 = [9.0, 1.0, 16.0, 4.0, 1.0, 25.0, 2.0];
    let enemies: Vec<EnemyInstance> =
        (0..d2.len()).map(|i| zombie(i as u64, i as f32, true)).collect();
    let picked = ranked(&enemies, &d2.iter().map(|d| s(*d)).collect());
    // The five nearest, drawn so that lower ids come on top.
    assert_eq!(picked, vec![6, 4, 3, 1, 0]);
    assert_eq!(picked.len(), MAX_LABELS);
    assert_eq!(ranked(&vec![], &vec![]), Vec::<usize>::new());
}

// ---- debug overlay ----

fn overlay() -> DebugUi {
    DebugUi {
        visible: true,
        archetype: 1,
        spawn_count: 3,
        spawn_distance: 8,
        spawn_at_cursor: false,
        weapon_base: 1,
        drop_base: 0,
        drop_rarity: Rarity::Rare,
        drop_ilvl: 20,
        drop_at_cursor: true,
        arena_pillars: true,
        show_flow: false,
        show_entity_stats: false,
    }
}

#[test]
fn the_overlay_blocks_shots_only_while_it_is_shown() {
    let mut ui = overlay();
    assert!(ui.blocks_fire(true));
    assert!(!ui.blocks_fire(false));
    ui.toggle();
    assert!(!ui.visible);
    assert!(!ui.blocks_fire(true));
}

#[test]
fn choices_come_from_the_content() {
    let content = content();
    let mut ui = overlay();
    assert_eq!(ui.weapon_choices(&content), vec![1, 2, 3]);
    assert_eq!(ui.weapon_label(&content), "Pistol");
    assert_eq!(ui.chosen_weapon(&content), Some("pistol".to_string()));
    // Armor that was chosen gives way to the first weapon.
    ui.weapon_base = 0;
    ui.weapon_choices(&content);
    assert_eq!(ui.weapon_base, 1);
    assert_eq!(ui.archetype_label(&content), "spitter");
    assert_eq!(ui.archetype_label(&Content::empty()), "—");
    assert_eq!(ui.drop_label(&content), "(random)");
    assert_eq!(ui.forced_base(&content), None);
    ui.drop_base = 3;
    assert_eq!(ui.drop_label(&content), "Shotgun");
    assert_eq!(ui.forced_base(&content), Some("shotgun".to_string()));
}

#[test]
fn spawns_and_drops_find_their_place() {
    let w = World::new(corridor());
    let mut ui = overlay();
    let at = Cursor { x: s(3.0), y: s(1.0) };
    assert_eq!(ui.spawn_order(Some(at)), SpawnOrder::Ring { count: 3, distance: 8 });
    ui.spawn_at_cursor = true;
    assert_eq!(
        ui.spawn_order(Some(at)),
        SpawnOrder::AtCursor { x: s(3.0), y: s(1.0), count: 3 }
    );
    assert_eq!(ui.spawn_order(None), SpawnOrder::Nothing);
    assert_eq!(ui.drop_place(Some(at), &w), at);
    let here = Cursor { x: w.player.x, y: w.player.y };
    assert_eq!(ui.drop_place(None, &w), here);
    ui.drop_at_cursor = false;
    assert_eq!(ui.drop_place(Some(at), &w), here);
}

#[test]
fn the_overlay_follows_the_weapon() {
    let content = content();
    let mut w = World::new(corridor());
    assert_eq!(shot_section(&w), ShotSection::Nothing);
    w.equip_base("shotgun", &appraisal(36.0), &content);
    assert_eq!(shot_section(&w), ShotSection::Spread);
    w.equip_base("rocket_launcher", &appraisal(80.0), &content);
    assert_eq!(shot_section(&w), ShotSection::Blast);
    assert_eq!(weighted_archetypes(&content), 2);
    w.tunables.even_weights(2);
    assert_eq!(w.tunables.spawn_weights[..3], [1, 1, 0]);
}

#[test]
fn lines_of_the_readouts() {
    let content = content();
    let mut w = World::new(corridor());
    assert_eq!(
        versus_line(&content.enemies[0], "100", "5", "2"),
        "vs basic_zombie · life 100, armor 5, eva 2"
    );
    assert_eq!(ttk_text(Some(&"1.50".to_string())), "1.50s");
    assert_eq!(ttk_text(None), "∞");
    assert_eq!(
        stats_footer(&w, ""),
        vec!["enemies 0   projectiles 0   drops 0", "player tile (1, 1)", "last hit —"]
    );
    w.last_hit = Some(HitResult::Dodged);
    assert_eq!(stats_footer(&w, "")[2], "last hit DODGED");
    w.last_hit = Some(HitResult::Hit { damage_dealt: s(3.5), was_crit: true });
    assert_eq!(stats_footer(&w, "3.5")[2], "last hit 3.5 CRIT");
    assert_eq!(
        player_lines(
            &w,
            &PlayerFigures {
                life: "80".into(),
                max_life: "100".into(),
                x: "1.5".into(),
                y: "1.5".into(),
                cooldown: "0.00".into(),
            }
        ),
        vec!["PLAYER", "hp 80/100", "pos 1.5, 1.5  cd 0.00", "enemies 0  proj 0"]
    );
}

#[test]
fn lines_over_an_enemy() {
    let content = content();
    let mut w = World::new(corridor());
    w.enemies.push(zombie(7, 4.5, false));
    w.enemies.push(zombie(8, 6.5, true));
    let figures = EnemyFigures {
        life: "90".into(),
        max_life: "100".into(),
        armor: "5".into(),
        evasion: "2".into(),
        speed: "3.0".into(),
        distance: "3.0".into(),
    };
    assert_eq!(
        enemy_lines(&w, &content, 0, &figures),
        vec!["spitter #7  il3  [idle]", "hp 90/100", "arm 5  eva 2", "spd 3.0  d 3.0  flow 3"]
    );
    // Behind the wall there is no way to the player.
    let lines = enemy_lines(&w, &Content::empty(), 1, &figures);
    assert_eq!(lines[0], "? #8  il0");
    assert_eq!(lines[3], "spd 3.0  d 3.0  flow ∞");
}

#[test]
fn lines_of_a_pad() {
    let mut pad = PadView {
        name: "Pad".into(),
        left_stick: ("+0.10".into(), "-0.20".into()),
        right_stick: ("+0.00".into(), "+0.00".into()),
        right_trigger: "0.50".into(),
        buttons_down: vec!["South".into(), "East".into()],
    };
    assert_eq!(
        pad_lines(2, &pad),
        vec![
            "[2] Pad",
            "  L-stick: (+0.10, -0.20)",
            "  R-stick: (+0.00, +0.00)",
            "  RT: 0.50",
            "  buttons: South, East",
        ]
    );
    pad.buttons_down.clear();
    assert_eq!(pad_lines(0, &pad)[4], "  buttons: —");
    assert_eq!(
        identity_line(Some(0x45e), Some(0xb12)),
        Some(format!("  vendor {:#06x}  product {:#06x}", 0x45e, 0xb12))
    );
    assert_eq!(identity_line(Some(1), None), None);
}

#[test]
fn arrows_point_down_the_flow_field() {
    let w = World::new(corridor());
    assert_eq!(flow_mark(&w, 1, 1), FlowMark::Goal);
    assert_eq!(flow_mark(&w, 4, 1), FlowMark::Towards { x: 3, y: 1 });
    assert_eq!(flow_mark(&w, 6, 1), FlowMark::Hidden);
    assert_eq!(flow_mark(&w, 0, 0), FlowMark::Hidden);
}
