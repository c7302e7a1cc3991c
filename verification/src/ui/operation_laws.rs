//! What the operations between player and game do, said of what goes into a call and what
//! comes out of it.

use vstd::prelude::*;

use crate::game::entity::{Appraisal, Command, Content, EnemyInstance};
use crate::game::rack::{is_stock, racked, weapon_base, Rack};
use crate::game::rack_laws::{is_slot, law_arming, law_choosing, law_switching};
use crate::game::world::World;
use crate::procgen::tilemap::{Tile, TileMap};
use crate::rules::combat::Combatant;
use crate::rules::item::{ItemInstance, Rarity};
use crate::scalar::Scalar;
use crate::ui::character::{
    law_gaits, law_models_fall_back_to_idling, locomotion, AnimClip, CharModel, Drive, PlayerAnim,
};
use crate::ui::hud::{hud_update, stats_text, Hud, HudFigures};
use crate::ui::input::{
    collect_commands, keyboard_move, keys_move, law_keys_lead, law_what_is_asked_for, law_who_aims,
    AimFrame, AimSource, AimState, Cursor, Keys, Moved,
};
use crate::ui::inventory::{
    cell_place, clicked, inventory_view, law_hovering, manage_inventory, Hover, InvAction,
    InventoryView, Modal, WeaponFigures,
};
use crate::ui::labels::{law_the_nearest_five_are_labelled, ranked};
use crate::ui::level::{new_world, resolve_run, starting, Level};
use crate::ui::overlay::{shot_section, DebugUi, ShotSection, SpawnOrder};
use crate::ui::pad::{law_what_a_pad_asks_for, Heading, PadInput, PadState, Pads};
use crate::ui::pool::{law_unlisted_is_exact, pool_change, reconcile, Changes, PoolChange};
use crate::ui::scene::{
    beam_top, hash_of, is_light, law_every_prop_is_placed, law_every_wall_is_shown,
    law_health_bars, law_one_tile_in_seventeen, law_props_keep_the_spawn_clear, prop_at,
    shows_health_bar, spawn_props, walls, PlacedProp,
};

verus! {

/// Who aims, and where.
pub proof fn law_aiming(
    s: &mut AimState,
    pad: &PadInput,
    facing: Option<Heading>,
    at: Cursor,
    moved: &Moved,
    mouse_aim: Option<Heading>,
    frame: AimFrame,
)
    requires
        facing is Some <==> pad.move_dir is Some,
        call_ensures(AimState::update, (s, pad, facing, at, moved, mouse_aim), frame),
    ensures
        ({
            let one = Scalar { bits: 0x3f80_0000 };
            let pushed = pad.aim_dir is Some || pad.move_dir is Some;
            let jumped = one.less_than(moved.x) || one.less_than(moved.y);
            let padded = pushed || (!jumped && old(s).source == AimSource::Pad);
            &&& frame.source == AimSource::Pad <==> padded
            &&& !padded ==> frame.dir == mouse_aim
            &&& padded && pad.aim_dir is Some ==> frame.dir == pad.aim_dir
            &&& padded && pad.aim_dir is None && facing is Some ==> frame.dir == facing
            &&& padded && !pushed ==> frame.dir == old(s).held
            &&& padded ==> final(s).held == frame.dir
            &&& !padded ==> final(s).held == old(s).held
            &&& final(s).prev_mouse == at
            &&& final(s).source == frame.source
        }),
{
    law_who_aims(*old(s), *pad, facing, at, *moved, mouse_aim);
}

/// What the devices ask for in a frame.
pub proof fn law_asking(
    aim: Option<Heading>,
    pad: &PadInput,
    keys: &Keys,
    mouse_left: bool,
    wheel_y: &Scalar,
    cmds: Vec<Command>,
    h: Heading,
    slot: usize,
)
    requires
        call_ensures(collect_commands, (aim, pad, keys, mouse_left, wheel_y), cmds),
    ensures
        ({
            let zero = Scalar { bits: 0 };
            let all = cmds@;
            let wanted = if pad.move_dir is Some {
                pad.move_dir
            } else {
                keys_move(*keys)
            };
            &&& all.contains(Command::Move { dx: h.dx, dy: h.dy }) <==> wanted == Some(h)
            &&& all.contains(Command::Fire { dx: h.dx, dy: h.dy }) <==> (pad.fire || mouse_left
                || keys.space) && aim == Some(h)
            &&& all.contains(Command::SwitchWeapon { slot }) <==> (slot == 0 && keys.digit1) || (
            slot == 1 && keys.digit2) || (slot == 2 && keys.digit3) || (slot == 3 && keys.digit4)
            &&& all.contains(Command::CycleWeapon { dir: 1 }) <==> keys.next || wheel_y.less_than(
                zero,
            ) || pad.cycle_next
            &&& all.contains(Command::CycleWeapon { dir: -1i32 }) <==> keys.prev || zero.less_than(
                *wheel_y,
            ) || pad.cycle_prev
        }),
{
    law_what_is_asked_for(aim, *pad, *keys, mouse_left, *wheel_y, h, slot);
}

/// Where the keys lead: right and down are positive, and opposite keys cancel out.
pub proof fn law_walking_by_keys(keys: &Keys, dir: Option<Heading>)
    requires
        call_ensures(keyboard_move, (keys,), dir),
    ensures
        dir is None <==> keys.left == keys.right && keys.up == keys.down,
        dir matches Some(h) ==> {
            let both = keys.left != keys.right && keys.up != keys.down;
            let size = if both {
                0x3f35_04f3int
            } else {
                0x3f80_0000
            };
            &&& keys.left == keys.right ==> h.dx.bits == 0
            &&& keys.right && !keys.left ==> h.dx.bits == size
            &&& keys.left && !keys.right ==> h.dx.bits == size + 0x8000_0000
            &&& keys.up == keys.down ==> h.dy.bits == 0
            &&& keys.down && !keys.up ==> h.dy.bits == size
            &&& keys.up && !keys.down ==> h.dy.bits == size + 0x8000_0000
        },
{
    law_keys_lead(*keys);
}

/// What a pad asks for.
pub proof fn law_reading_a_pad(pads: &mut Pads, pad: PadState, deadzone: &Scalar, input: PadInput)
    requires
        call_ensures(Pads::read, (pads, Some(pad), deadzone), input),
    ensures
        input.move_dir is None <==> pad.left.magnitude.less_than(*deadzone),
        input.aim_dir is None <==> pad.right.magnitude.less_than(*deadzone),
        input.move_dir matches Some(h) ==> h.dx.value() == pad.left.x.value() && h.dy.value()
            == -pad.left.y.value(),
        input.aim_dir matches Some(h) ==> h.dx.value() == pad.right.unit.dx.value()
            && h.dy.value() == -pad.right.unit.dy.value(),
        input.fire == pad.trigger,
        input.cycle_next <==> pad.right_bumper && !old(pads).prev_next,
        input.cycle_prev <==> pad.left_bumper && !old(pads).prev_prev,
        final(pads).prev_next == pad.right_bumper,
        final(pads).prev_prev == pad.left_bumper,
{
    law_what_a_pad_asks_for(*old(pads), pad, *deadzone);
}

/// What a click does: it equips the last weapon of the bag that the mouse is over. It switches
/// to the last slot that it is over only if it is over no weapon, and closes the screen only
/// if it is over the button and neither of these. Without a click nothing happens.
pub proof fn law_clicking(
    view: &InventoryView,
    h: &Hover,
    click: bool,
    action: Option<InvAction>,
    k: int,
)
    requires
        call_ensures(clicked, (view, h, click), action),
    ensures
        ({
            let weapon = 0 <= k < view.bag@.len() && k < h.bag@.len() && h.bag@[k]
                && view.bag@[k].equippable;
            let slot = 0 <= k < view.rack@.len() && k < h.rack@.len() && h.rack@[k];
            &&& !click ==> action is None
            &&& action matches Some(InvAction::Equip(i)) ==> {
                &&& i < view.bag@.len() && i < h.bag@.len()
                &&& h.bag@[i as int] && view.bag@[i as int].equippable
                &&& weapon ==> k <= i
            }
            &&& action matches Some(InvAction::Switch(i)) ==> {
                &&& i < view.rack@.len() && i < h.rack@.len()
                &&& h.rack@[i as int]
                &&& !weapon
                &&& slot ==> k <= i
            }
            &&& action == Some(InvAction::Close) ==> h.close && !weapon && !slot
        }),
{
    law_hovering(*h, *view, k);
}

/// Cells of the bag stand four to a row, and the screen is put up and taken down as the
/// inventory opens and closes.
pub proof fn law_laying_out(i: usize, p: (usize, usize), open: bool, present: bool, m: Modal)
    requires
        call_ensures(cell_place, (i,), p),
        call_ensures(manage_inventory, (open, present), m),
    ensures
        p.0 == i as int % 4,
        p.1 == i as int / 4,
        m == Modal::Spawn <==> open && !present,
        m == Modal::Despawn <==> !open && present,
{
    vstd::arithmetic::div_mod::lemma_fundamental_div_mod_converse(
        i as int,
        4,
        p.1 as int,
        p.0 as int,
    );
}

/// What the display says of the run, and whether the game is over.
pub proof fn law_displaying(w: &World, f: &HudFigures, h: Hud)
    requires
        w.wf(),
        call_ensures(hud_update, (w, f), h),
    ensures
        h.dead == w.game_over,
        h.health@ == f.life@ + " / "@ + f.max_life@,
        exists|level: int|
            {
                &&& 1 <= level <= 30
                &&& h.stats@ == #[trigger] stats_text(*w, level)
                &&& 50 * level * (level - 1) <= w.xp
                &&& level < 30 ==> w.xp < 50 * (level + 1) * level
            },
        w.loadout@.len() == 0 ==> h.weapon@.len() == 0,
        w.last_pickup is None ==> h.pickup@.len() == 0,
{
    let level = choose|level: int| #[trigger]
        crate::rules::progression::is_level_for(level, w.xp as int) && h.stats@ == stats_text(
            *w,
            level,
        );
    assert(50 * level * (level - 1) == (level - 1) * level * 50) by (nonlinear_arith);
    assert(50 * (level + 1) * level == level * (level + 1) * 50) by (nonlinear_arith);
    if level == 1 {
        assert(50 * level * (level - 1) == 0) by (nonlinear_arith)
            requires
                level == 1,
        ;
    }
    assert(h.stats@ == stats_text(*w, level));
}

/// The enemies that are labelled are the nearest five, the highest ids first.
pub proof fn law_labelling(
    enemies: &Vec<EnemyInstance>,
    d2: &Vec<Scalar>,
    picked: Vec<usize>,
    i: usize,
    a: int,
    b: int,
)
    requires
        d2@.len() == enemies@.len(),
        forall|a: int, b: int|
            0 <= a < b < enemies@.len() ==> (#[trigger] enemies@[a]).id != (
            #[trigger] enemies@[b]).id,
        forall|j: int|
            0 <= j < d2@.len() ==> !(#[trigger] d2@[j]).is_nan() && !d2@[j].is_negative(),
        call_ensures(ranked, (enemies, d2), picked),
        i < d2@.len(),
    ensures
        picked@.len() <= 5,
        picked@.contains(i) <==> Set::new(
            |j: int|
                0 <= j < d2@.len() && (d2@[j].value() < d2@[i as int].value() || (d2@[j].value()
                    == d2@[i as int].value() && j < i)),
        ).len() < 5,
        0 <= a < b < picked@.len() ==> enemies@[picked@[a] as int].id
            > enemies@[picked@[b] as int].id,
{
    law_the_nearest_five_are_labelled(d2@, i as int);
}

/// Views of what is gone are taken down, and what has none gets one; pools grow and shrink
/// only by as much as needed.
pub proof fn law_reconciling(
    views: &Vec<u64>,
    live: &Vec<u64>,
    c: Changes,
    i: usize,
    have: usize,
    want: usize,
    p: PoolChange,
)
    requires
        call_ensures(reconcile, (views, live), c),
        call_ensures(pool_change, (have, want), p),
    ensures
        c.gone@.contains(i) <==> i < views@.len() && !live@.contains(views@[i as int]),
        c.fresh@.contains(i) <==> i < live@.len() && !views@.contains(live@[i as int]),
        have <= want ==> p.reuse == have && p.spawn == want - have && p.retire == 0,
        have > want ==> p.reuse == want && p.spawn == 0 && p.retire == have - want,
{
    assert(views.len() == views@.len() && live.len() == live@.len());
    law_unlisted_is_exact(views@, live@, views@.len() as int, i);
    law_unlisted_is_exact(live@, views@, live@.len() as int, i);
}

/// Props stand on floor other than the player's start where the hash of the tile is divisible
/// by seventeen, and on every such tile; walls stand on the wall tiles.
pub proof fn law_dressing(
    map: &TileMap,
    props: Vec<PlacedProp>,
    tiles: Vec<(u32, u32)>,
    i: int,
    x: u32,
    y: u32,
)
    requires
        map.wf(),
        x < map.width,
        y < map.height,
        call_ensures(spawn_props, (map,), props),
        call_ensures(walls, (map,), tiles),
    ensures
        0 <= i < props@.len() ==> {
            let p = props@[i];
            &&& map.tile((p.x as int, p.y as int)) == Tile::Floor
            &&& (p.x, p.y) != map.player_spawn
            &&& hash_of(p.x, p.y, map.seed) % 17 == 0
        },
        map.tile((x as int, y as int)) == Tile::Floor && (x, y) != map.player_spawn && hash_of(
            x,
            y,
            map.seed,
        ) % 17 == 0 ==> exists|k: int|
            0 <= k < props@.len() && (#[trigger] props@[k]).x == x && props@[k].y == y,
        tiles@.contains((x, y)) <==> map.tiles@[y * map.width + x] == Tile::Wall,
{
    let n = map.width * map.height;
    let c = (x as int, y as int);
    crate::procgen::tilemap::lemma_cell_index(map.width as int, map.height as int, c);
    if 0 <= i < props@.len() {
        law_props_keep_the_spawn_clear(*map, n, i);
        law_one_tile_in_seventeen(*map, props@[i].x, props@[i].y);
    }
    law_one_tile_in_seventeen(*map, x, y);
    if prop_at(*map, x, y) is Some {
        law_every_prop_is_placed(*map, x, y, n);
        let k = choose|k: int|
            0 <= k < crate::ui::scene::props_on(*map, n).len()
                && #[trigger] crate::ui::scene::props_on(*map, n)[k] == (PlacedProp {
                x,
                y,
                prop: prop_at(*map, x, y)->0,
                hash: hash_of(x, y, map.seed),
            });
        assert(props@[k].x == x && props@[k].y == y);
    }
    law_every_wall_is_shown(*map, n, x, y);
}

/// What is looked at: a bar above whoever is hurt, taller beams for rarer drops, and a
/// checkered floor.
pub proof fn law_looks(
    c: &Combatant,
    bar: bool,
    r: Rarity,
    tenths: u32,
    x: u32,
    y: u32,
    light: bool,
)
    requires
        !c.max_life.is_nan(),
        !c.current_life.is_nan(),
        call_ensures(shows_health_bar, (c,), bar),
        call_ensures(beam_top, (r,), tenths),
        call_ensures(is_light, (x, y), light),
    ensures
        bar <==> 0 < c.max_life.value() && c.current_life.value() < c.max_life.value(),
        tenths == seq![10u32, 16, 22, 28, 34][r.rank()],
        light <==> (x + y) % 2 == 0,
{
    law_health_bars(*c);
}

/// What characters play: their gait, or the pose of a shot while any of its time is left.
pub proof fn law_playing(
    anim: &mut PlayerAnim,
    left: Scalar,
    speed: &Scalar,
    clip: AnimClip,
    armed: bool,
    gait: AnimClip,
    seen: &mut PlayerAnim,
    cooldown: Scalar,
    edge: &Scalar,
)
    requires
        call_ensures(PlayerAnim::player_anim_state, (anim, left, speed), clip),
        call_ensures(locomotion, (speed, armed), gait),
        call_ensures(PlayerAnim::observe, (seen, cooldown, edge), ()),
    ensures
        ({
            let run = Scalar { bits: 0x404c_cccd };
            let walk = Scalar { bits: 0x3eb3_3333 };
            let posing = !left.is_nan() && left.value() > 0;
            &&& clip == AnimClip::Shoot <==> posing
            &&& posing ==> final(anim).shoot_ttl == left
            &&& !left.is_nan() && left.value() < 0 ==> final(anim).shoot_ttl.bits == 0
            &&& !posing ==> (clip == AnimClip::Sprint <==> run.less_than(*speed))
            &&& gait == AnimClip::Sprint <==> run.less_than(*speed)
            &&& gait == AnimClip::Walk <==> walk.less_than(*speed) && !run.less_than(*speed)
            &&& edge.less_than(cooldown) ==> final(seen).shoot_ttl.bits == 0x3e8f_5c29
            &&& !edge.less_than(cooldown) ==> final(seen).shoot_ttl == old(seen).shoot_ttl
            &&& final(seen).prev_cooldown == cooldown
        }),
{
    law_gaits(*speed, armed);
    law_gaits(*speed, true);
}

/// A model is bound once, and fades to a clip when its state changes.
pub proof fn law_driving(
    m: &mut CharModel,
    ready: bool,
    clips: &Vec<bool>,
    transitions: bool,
    d: Drive,
)
    requires
        clips@.len() == 7,
        call_ensures(CharModel::drive_char_animation, (m, ready, clips, transitions), d),
    ensures
        !ready ==> *final(m) == *old(m) && !d.bind && d.play is None,
        ready ==> final(m).attached && (d.bind <==> !old(m).attached),
        ready && old(m).attached && old(m).applied == Some(old(m).state) ==> d.play is None,
        d.play is Some ==> final(m).applied == Some(old(m).state) && transitions,
        final(m).state == old(m).state,
{
    law_models_fall_back_to_idling(clips@, old(m).state);
}

/// What a run starts with: the command line comes before the environment, and without either
/// it is the dungeon of seed 42.
pub proof fn law_resolving(
    level: Option<Level>,
    seed: Option<u64>,
    env: Option<u64>,
    run: (Level, u64),
)
    requires
        call_ensures(resolve_run, (level, None::<&str>, seed, env), run),
    ensures
        level matches Some(l) ==> run.0 == l,
        level is None ==> run.0 == Level::Bsp,
        seed matches Some(s) ==> run.1 == s,
        seed is None ==> (env matches Some(s) ==> run.1 == s),
        seed is None && env is None ==> run.1 == 42,
{
}

/// A world that is swapped onto a new map starts afresh there and keeps its knobs.
pub proof fn law_reloading(w: &mut World, map: TileMap)
    requires
        map.wf(),
        call_ensures(World::reload_world, (w, map), ()),
    ensures
        final(w).map == map,
        final(w).tunables == old(w).tunables,
        final(w).enemies@.len() + final(w).drops@.len() + final(w).inventory@.len()
            + final(w).loadout@.len() == 0,
        final(w).kills == 0 && final(w).xp == 0 && !final(w).game_over,
        final(w).world_seed == map.seed,
{
}

/// What the overlay's buttons do.
pub proof fn law_buttons(
    ui: &DebugUi,
    cursor: Option<Cursor>,
    order: SpawnOrder,
    w: &World,
    place: Cursor,
    section: ShotSection,
)
    requires
        w.wf(),
        call_ensures(DebugUi::spawn_order, (ui, cursor), order),
        call_ensures(DebugUi::drop_place, (ui, cursor, w), place),
        call_ensures(shot_section, (w,), section),
    ensures
        !ui.spawn_at_cursor ==> order == (SpawnOrder::Ring {
            count: ui.spawn_count,
            distance: ui.spawn_distance,
        }),
        ui.spawn_at_cursor && cursor is None ==> order == SpawnOrder::Nothing,
        ui.spawn_at_cursor ==> (cursor matches Some(c) ==> order == (SpawnOrder::AtCursor {
            x: c.x,
            y: c.y,
            count: ui.spawn_count,
        })),
        ui.drop_at_cursor ==> (cursor matches Some(c) ==> place == c),
        !ui.drop_at_cursor || cursor is None ==> place.x == w.player.x && place.y == w.player.y,
        section == ShotSection::Spread <==> w.loadout@.len() > 0
            && w.loadout@[w.active as int].profile is Spread,
        section == ShotSection::Blast <==> w.loadout@.len() > 0
            && w.loadout@[w.active as int].profile is Explosive,
{
}

/// What a click asks for is done: a slot becomes active, an item of the bag that is a weapon
/// goes onto the rack and becomes active, and only closing closes the screen.
pub proof fn law_doing_what_a_click_asks_for(
    w: &mut World,
    action: InvAction,
    a: &Appraisal,
    content: &Content,
    open: bool,
    s: int,
)
    requires
        old(w).wf(),
        call_ensures(World::inventory_click, (w, action, a, content), open),
    ensures
        open <==> action != InvAction::Close,
        action == InvAction::Close ==> *final(w) == *old(w),
        action matches InvAction::Switch(slot) ==> final(w).active == (if slot
            < old(w).loadout@.len() {
            slot
        } else {
            old(w).active
        }),
        action matches InvAction::Equip(i) ==> {
            let item = old(w).inventory@[i as int];
            let weapon = i < old(w).inventory@.len() && weapon_base(content.bases@, item.base@) is Some;
            &&& !weapon ==> *final(w) == *old(w)
            &&& weapon && is_slot(old(w).rack(), item.base@, s) ==> final(w).active == s
                && final(w).loadout@[s].item == item
        },
{
    if let InvAction::Switch(slot) = action {
        law_switching(old(w).rack(), slot as int);
    }
    if let InvAction::Equip(i) = action {
        let r = old(w).rack();
        let item = old(w).inventory@[i as int];
        let without = Rack { inventory: r.inventory.remove(i as int), ..r };
        if i < old(w).inventory@.len() && is_slot(r, item.base@, s) {
            assert(is_slot(without, item.base@, s));
            if let Some(base) = weapon_base(content.bases@, item.base@) {
                law_choosing(without, racked(item, *a, base), s);
            }
        }
    }
}

/// What the screen shows: a cell for every weapon of the rack, the active one marked, and one
/// for every item of the bag, those of weapons to be clicked.
pub proof fn law_showing_the_inventory(
    w: &World,
    content: &Content,
    figures: &Vec<WeaponFigures>,
    v: InventoryView,
    i: int,
)
    requires
        figures@.len() == w.loadout@.len(),
        call_ensures(inventory_view, (w, content, figures), v),
    ensures
        v.rack@.len() == w.loadout@.len(),
        v.bag@.len() == w.inventory@.len(),
        0 <= i < w.loadout@.len() ==> (v.rack@[i].active <==> i == w.active) && v.rack@[i].rarity
            == w.loadout@[i].item.rarity,
        0 <= i < w.inventory@.len() ==> (v.bag@[i].equippable <==> weapon_base(
            content.bases@,
            w.inventory@[i].base@,
        ) is Some) && v.bag@[i].rarity == w.inventory@[i].rarity,
{
    assert(v.rack.len() == v.rack@.len() && v.bag.len() == v.bag@.len());
    if 0 <= i < w.loadout@.len() {
        assert(crate::ui::inventory::is_rack_cell(v.rack@[i], *w, i, figures@[i]));
    }
    if 0 <= i < w.inventory@.len() {
        assert(crate::ui::inventory::is_bag_cell(v.bag@[i], w.inventory@[i], content.bases@));
    }
}

/// A run starts in a fresh world, with a stock pistol in hand if there is one; waves come in
/// the dungeon only.
pub proof fn law_starting_a_run(
    level: Level,
    map: TileMap,
    a: &Appraisal,
    content: &Content,
    w: World,
)
    requires
        map.wf(),
        call_ensures(new_world, (level, map, a, content), w),
    ensures
        w.map == map,
        w.enemies@.len() == 0 && w.kills == 0 && w.xp == 0,
        w.inventory@.len() == 0,
        weapon_base(content.bases@, "pistol"@) is None ==> w.loadout@.len() == 0
            && w.tunables.auto_spawn == (level == Level::Bsp),
        weapon_base(content.bases@, "pistol"@) is Some && !a.rank.is_nan() ==> {
            &&& w.loadout@.len() == 1
            &&& w.loadout@[0].item.base@ == "pistol"@
            &&& w.loadout@[0].item.upgrade_tier == 0
            &&& w.active == 0
            &&& w.tunables.bullet_damage == a.weapon.damage_per_shot
            &&& w.tunables.auto_spawn == (level == Level::Bsp)
        },
{
    let fresh = choose|fresh: World|
        {
            &&& #[trigger] fresh.starts_on(map)
            &&& starting(fresh.tunables, level)
            &&& w.same_but_rack(fresh)
            &&& match weapon_base(content.bases@, "pistol"@) {
                Some(base) => exists|item: ItemInstance| #[trigger]
                    is_stock(item, "pistol"@) && w.rack() == fresh.rack().armed(
                        racked(item, *a, base),
                    ),
                None => w.rack() == fresh.rack(),
            }
        };
    assert(fresh.starts_on(map));
    if let Some(base) = weapon_base(content.bases@, "pistol"@) {
        let item = choose|item: ItemInstance| #[trigger]
            is_stock(item, "pistol"@) && w.rack() == fresh.rack().armed(racked(item, *a, base));
        if !a.rank.is_nan() {
            assert(is_slot(fresh.rack(), "pistol"@, 0));
            law_arming(fresh.rack(), racked(item, *a, base), 0);
        }
        assert(w.rack().loadout =~= w.loadout@);
    }
}

} // verus!
