//! The tuning overlay: what its controls choose and do, and what its panels say.

use vstd::prelude::*;

use crate::game::entity::{Content, FireProfile};
use crate::game::tunables::Tunables;
use crate::game::world::World;
use crate::procgen::flow::UNREACHABLE;
use crate::procgen::tilemap::Tile;
use crate::rules::combat::HitResult;
use crate::rules::enemy::Enemy;
use crate::rules::item::{BaseItem, Rarity};
use crate::scalar::Scalar;
use crate::text::{
    decimal, hex, join, joined, law_digits_spell_the_number, push_decimal, push_hex, same_text,
    spelled, texts,
};
use crate::ui::input::Cursor;

verus! {

/// The state of the overlay's controls.
#[derive(Debug, Clone, Copy, PartialEq, Eq, Structural)]
pub struct DebugUi {
    pub visible: bool,
    pub archetype: usize,
    pub spawn_count: u32,
    pub spawn_distance: u32,
    pub spawn_at_cursor: bool,
    pub weapon_base: usize,
    /// Zero drops a random base, a higher number the base before it in the list.
    pub drop_base: usize,
    pub drop_rarity: Rarity,
    pub drop_ilvl: u32,
    pub drop_at_cursor: bool,
    pub arena_pillars: bool,
    pub show_flow: bool,
    pub show_entity_stats: bool,
}

impl Default for DebugUi {
    fn default() -> (d: DebugUi)
        ensures
            d == (DebugUi {
                visible: true,
                archetype: 0,
                spawn_count: 4,
                spawn_distance: 12,
                spawn_at_cursor: false,
                weapon_base: 0,
                drop_base: 0,
                drop_rarity: Rarity::Rare,
                drop_ilvl: 20,
                drop_at_cursor: false,
                arena_pillars: true,
                show_flow: false,
                show_entity_stats: false,
            }),
    {
        DebugUi {
            visible: true,
            archetype: 0,
            spawn_count: 4,
            spawn_distance: 12,
            spawn_at_cursor: false,
            weapon_base: 0,
            drop_base: 0,
            drop_rarity: Rarity::Rare,
            drop_ilvl: 20,
            drop_at_cursor: false,
            arena_pillars: true,
            show_flow: false,
            show_entity_stats: false,
        }
    }
}

/// The places among the first `n` bases that are weapons.
pub open spec fn weapons_among(bases: Seq<BaseItem>, n: int) -> Seq<usize>
    decreases n,
{
    if n <= 0 {
        Seq::empty()
    } else if bases[n - 1].slot@ == "weapon"@ {
        weapons_among(bases, n - 1).push((n - 1) as usize)
    } else {
        weapons_among(bases, n - 1)
    }
}

/// The knobs that go with the fire pattern of the active weapon.
#[derive(Debug, Clone, Copy, PartialEq, Eq, Structural)]
pub enum ShotSection {
    Spread,
    Blast,
    Nothing,
}

/// What the spawn button does.
#[derive(Debug, Clone, Copy, PartialEq, Eq, Structural)]
pub enum SpawnOrder {
    /// So many enemies at one place.
    AtCursor { x: Scalar, y: Scalar, count: u32 },
    /// So many enemies around the player, at least so far away.
    Ring { count: u32, distance: u32 },
    /// There is no place under the cursor.
    Nothing,
}

/// The display name of the base at a place in the list, or a dash.
pub open spec fn base_name(bases: Seq<BaseItem>, i: int) -> Seq<char> {
    if i < bases.len() {
        bases[i].name@
    } else {
        "—"@
    }
}

fn name_of(bases: &Vec<BaseItem>, i: usize) -> (s: String)
    ensures
        s@ == base_name(bases@, i as int),
{
    if i < bases.len() {
        bases[i].name.clone()
    } else {
        "—".to_owned()
    }
}

impl DebugUi {
    /// One press of the overlay's key shows or hides it.
    pub fn toggle(&mut self)
        ensures
            *final(self) == (DebugUi { visible: !old(self).visible, ..*old(self) }),
    {
        self.visible = !self.visible;
    }

    /// Whether clicks stay with the overlay: only while it is shown and wants the pointer.
    pub fn blocks_fire(&self, wants_pointer: bool) -> (b: bool)
        ensures
            b == (self.visible && wants_pointer),
    {
        self.visible && wants_pointer
    }

    /// The weapons to choose from. The choice falls back to the first of them when it is
    /// on something else.
    pub fn weapon_choices(&mut self, content: &Content) -> (weapons: Vec<usize>)
        ensures
            weapons@ == weapons_among(content.bases@, content.bases@.len() as int),
            *final(self) == (DebugUi {
                weapon_base: if weapons@.contains(old(self).weapon_base) {
                    old(self).weapon_base
                } else if weapons@.len() > 0 {
                    weapons@[0]
                } else {
                    0
                },
                ..*old(self)
            }),
    {
        let mut weapons: Vec<usize> = Vec::new();
        let mut found = false;
        for i in 0..content.bases.len()
            invariant
                *self == *old(self),
                weapons@ == weapons_among(content.bases@, i as int),
                found == weapons@.contains(self.weapon_base),
        {
            if same_text(content.bases[i].slot.as_str(), "weapon") {
                let ghost before = weapons@;
                weapons.push(i);
                proof {
                    assert(weapons@[before.len() as int] == i);
                    if before.contains(self.weapon_base) {
                        let k = choose|k: int|
                            0 <= k < before.len() && before[k] == self.weapon_base;
                        assert(weapons@[k] == self.weapon_base);
                    }
                    if weapons@.contains(self.weapon_base) && i != self.weapon_base {
                        let k = choose|k: int|
                            0 <= k < weapons@.len() && weapons@[k] == self.weapon_base;
                        assert(before[k] == self.weapon_base);
                    }
                }
                if i == self.weapon_base {
                    found = true;
                }
            }
        }
        if !found {
            self.weapon_base = if weapons.len() > 0 {
                weapons[0]
            } else {
                0
            };
        }
        weapons
    }

    /// The name of the chosen weapon.
    pub fn weapon_label(&self, content: &Content) -> (s: String)
        ensures
            s@ == base_name(content.bases@, self.weapon_base as int),
    {
        name_of(&content.bases, self.weapon_base)
    }

    /// The id of the chosen weapon, for the equip button.
    pub fn chosen_weapon(&self, content: &Content) -> (id: Option<String>)
        ensures
            match id {
                Some(id) => self.weapon_base < content.bases@.len() && id@
                    == content.bases@[self.weapon_base as int].id@,
                None => self.weapon_base >= content.bases@.len(),
            },
    {
        if self.weapon_base < content.bases.len() {
            Some(content.bases[self.weapon_base].id.clone())
        } else {
            None
        }
    }

    /// What the spawn button does.
    pub fn spawn_order(&self, cursor: Option<Cursor>) -> (order: SpawnOrder)
        ensures
            order == if self.spawn_at_cursor {
                match cursor {
                    Some(c) => SpawnOrder::AtCursor { x: c.x, y: c.y, count: self.spawn_count },
                    None => SpawnOrder::Nothing,
                }
            } else {
                SpawnOrder::Ring { count: self.spawn_count, distance: self.spawn_distance }
            },
    {
        if self.spawn_at_cursor {
            match cursor {
                Some(c) => SpawnOrder::AtCursor { x: c.x, y: c.y, count: self.spawn_count },
                None => SpawnOrder::Nothing,
            }
        } else {
            SpawnOrder::Ring { count: self.spawn_count, distance: self.spawn_distance }
        }
    }

    /// The name of the archetype that is spawned, or a dash.
    pub fn archetype_label(&self, content: &Content) -> (s: String)
        ensures
            s@ == if self.archetype < content.enemies@.len() {
                content.enemies@[self.archetype as int].id@
            } else {
                "—"@
            },
    {
        if self.archetype < content.enemies.len() {
            content.enemies[self.archetype].id.clone()
        } else {
            "—".to_owned()
        }
    }

    /// The name of what is dropped.
    pub fn drop_label(&self, content: &Content) -> (s: String)
        ensures
            s@ == if self.drop_base == 0 {
                "(random)"@
            } else {
                base_name(content.bases@, self.drop_base - 1)
            },
    {
        if self.drop_base == 0 {
            "(random)".to_owned()
        } else {
            name_of(&content.bases, self.drop_base - 1)
        }
    }

    /// The id of the base that the drop button forces, if it forces one.
    pub fn forced_base(&self, content: &Content) -> (id: Option<String>)
        ensures
            match id {
                Some(id) => 0 < self.drop_base <= content.bases@.len() && id@
                    == content.bases@[self.drop_base - 1].id@,
                None => self.drop_base == 0 || self.drop_base > content.bases@.len(),
            },
    {
        if self.drop_base == 0 || self.drop_base > content.bases.len() {
            None
        } else {
            Some(content.bases[self.drop_base - 1].id.clone())
        }
    }

    /// Where the drop button drops: at the cursor, if it should and there is one, otherwise
    /// on the player.
    pub fn drop_place(&self, cursor: Option<Cursor>, w: &World) -> (c: Cursor)
        ensures
            c == match cursor {
                Some(at) if self.drop_at_cursor => at,
                _ => Cursor { x: w.player.x, y: w.player.y },
            },
    {
        match cursor {
            Some(at) => if self.drop_at_cursor {
                at
            } else {
                Cursor { x: w.player.x, y: w.player.y }
            },
            None => Cursor { x: w.player.x, y: w.player.y },
        }
    }
}

/// Which knobs go with the active weapon.
pub fn shot_section(w: &World) -> (s: ShotSection)
    requires
        w.wf(),
    ensures
        s == if w.loadout@.len() == 0 {
            ShotSection::Nothing
        } else {
            match w.loadout@[w.active as int].profile {
                FireProfile::Spread { .. } => ShotSection::Spread,
                FireProfile::Explosive { .. } => ShotSection::Blast,
                FireProfile::Single => ShotSection::Nothing,
            }
        },
{
    match w.equipped() {
        None => ShotSection::Nothing,
        Some(eq) => match eq.profile {
            FireProfile::Spread { .. } => ShotSection::Spread,
            FireProfile::Explosive { .. } => ShotSection::Blast,
            FireProfile::Single => ShotSection::Nothing,
        },
    }
}

/// How many archetypes of a roster have a weight of their own.
pub fn weighted_archetypes(content: &Content) -> (n: usize)
    ensures
        n == if content.enemies@.len() < 12 {
            content.enemies@.len() as int
        } else {
            12
        },
{
    if content.enemies.len() < 12 {
        content.enemies.len()
    } else {
        12
    }
}

impl Tunables {
    /// Whether this differs from the other in the spawn weights, at most.
    pub open spec fn same_but_weights(self, other: Tunables) -> bool {
        self == (Tunables { spawn_weights: self.spawn_weights, ..other })
    }

    /// The first `n` archetypes are equally likely, and no others appear; with `n` zero
    /// every archetype is equally likely.
    pub fn even_weights(&mut self, n: usize)
        ensures
            final(self).same_but_weights(*old(self)),
            forall|i: int|
                0 <= i < 12 ==> #[trigger] final(self).spawn_weights@[i] == if i < n {
                    1u32
                } else {
                    0u32
                },
    {
        let mut weights: [u32; 12] = [0;12];
        let m: usize = if n < 12 {
            n
        } else {
            12
        };
        for i in 0..m
            invariant
                m <= 12,
                forall|k: int|
                    0 <= k < 12 ==> #[trigger] weights@[k] == if k < i {
                        1u32
                    } else {
                        0u32
                    },
        {
            weights[i] = 1;
        }
        self.spawn_weights = weights;
    }
}

/// What the combat panel says of a target: its id, life, armor and evasion.
pub open spec fn versus_text(
    e: Enemy,
    life: Seq<char>,
    armor: Seq<char>,
    evasion: Seq<char>,
) -> Seq<char> {
    "vs "@ + e.id@ + " · life "@ + life + ", armor "@ + armor + ", eva "@ + evasion
}

pub fn versus_line(e: &Enemy, life: &str, armor: &str, evasion: &str) -> (s: String)
    ensures
        s@ == versus_text(*e, life@, armor@, evasion@),
{
    let mut s = String::new();
    s.append("vs ");
    s.append(e.id.as_str());
    s.append(" · life ");
    s.append(life);
    s.append(", armor ");
    s.append(armor);
    s.append(", eva ");
    s.append(evasion);
    assert(s@ =~= versus_text(*e, life@, armor@, evasion@));
    s
}

/// A time to kill in seconds; what never dies takes forever.
pub fn ttk_text(seconds: Option<&String>) -> (s: String)
    ensures
        s@ == match seconds {
            Some(t) => t@ + "s"@,
            None => "∞"@,
        },
{
    match seconds {
        Some(t) => {
            let mut s = t.clone();
            s.append("s");
            s
        },
        None => "∞".to_owned(),
    }
}

/// The counts in the overlay's footer.
pub open spec fn counts_text(w: World) -> Seq<char> {
    "enemies "@ + decimal(w.enemies@.len()) + "   projectiles "@ + decimal(w.projectiles@.len())
        + "   drops "@ + decimal(w.drops@.len())
}

/// The player's tile in the overlay's footer.
pub open spec fn tile_text(w: World) -> Seq<char> {
    "player tile ("@ + decimal(w.player.x.whole_part() as nat) + ", "@ + decimal(
        w.player.y.whole_part() as nat,
    ) + ")"@
}

/// The last hit in the overlay's footer.
pub open spec fn hit_text(hit: Option<HitResult>, damage: Seq<char>) -> Seq<char> {
    match hit {
        Some(HitResult::Hit { was_crit, .. }) => "last hit "@ + damage + (if was_crit {
            " CRIT"@
        } else {
            Seq::empty()
        }),
        Some(HitResult::Dodged) => "last hit DODGED"@,
        None => "last hit —"@,
    }
}

/// The lines of the overlay's footer, below the frame rate. `damage` is that of the last
/// hit, written out.
pub fn stats_footer(w: &World, damage: &str) -> (lines: Vec<String>)
    ensures
        texts(lines@) == seq![counts_text(*w), tile_text(*w), hit_text(w.last_hit, damage@)],
{
    let mut counts = String::new();
    counts.append("enemies ");
    push_decimal(&mut counts, w.enemies.len() as u64);
    counts.append("   projectiles ");
    push_decimal(&mut counts, w.projectiles.len() as u64);
    counts.append("   drops ");
    push_decimal(&mut counts, w.drops.len() as u64);
    assert(counts@ =~= counts_text(*w));
    let mut tile = String::new();
    tile.append("player tile (");
    push_decimal(&mut tile, w.player.x.truncate() as u64);
    tile.append(", ");
    push_decimal(&mut tile, w.player.y.truncate() as u64);
    tile.append(")");
    assert(tile@ =~= tile_text(*w));
    let mut hit = String::new();
    match w.last_hit {
        Some(HitResult::Hit { was_crit, .. }) => {
            hit.append("last hit ");
            hit.append(damage);
            if was_crit {
                hit.append(" CRIT");
            }
        },
        Some(HitResult::Dodged) => {
            hit.append("last hit DODGED");
        },
        None => {
            hit.append("last hit —");
        },
    }
    assert(hit@ =~= hit_text(w.last_hit, damage@));
    let lines: Vec<String> = vec![counts, tile, hit];
    assert(texts(lines@) =~= seq![
        counts_text(*w),
        tile_text(*w),
        hit_text(w.last_hit, damage@),
    ]);
    lines
}

/// The figures of an enemy's label, written out: life, maximum life, armor and evasion
/// without decimals, speed and distance with one.
#[derive(Debug)]
pub struct EnemyFigures {
    pub life: String,
    pub max_life: String,
    pub armor: String,
    pub evasion: String,
    pub speed: String,
    pub distance: String,
}

/// The steps to the player along the flow field, written out.
pub open spec fn steps_text(d: u32) -> Seq<char> {
    if d == UNREACHABLE {
        "∞"@
    } else {
        decimal(d as nat)
    }
}

/// The first line of an enemy's label: what it is, which one, its level and whether it is
/// still dormant.
pub open spec fn enemy_title(w: World, content: Content, i: int) -> Seq<char> {
    let e = w.enemies@[i];
    let known = e.archetype < content.enemies@.len();
    (if known {
        content.enemies@[e.archetype as int].id@
    } else {
        "?"@
    }) + " #"@ + decimal(e.id as nat) + "  il"@ + decimal(
        if known {
            content.enemies@[e.archetype as int].ilvl as nat
        } else {
            0
        },
    ) + (if e.awake {
        Seq::empty()
    } else {
        "  [idle]"@
    })
}

/// The lines of an enemy's label.
pub open spec fn enemy_label(w: World, content: Content, i: int, f: EnemyFigures) -> Seq<
    Seq<char>,
> {
    let e = w.enemies@[i];
    seq![
        enemy_title(w, content, i),
        "hp "@ + f.life@ + "/"@ + f.max_life@,
        "arm "@ + f.armor@ + "  eva "@ + f.evasion@,
        "spd "@ + f.speed@ + "  d "@ + f.distance@ + "  flow "@ + steps_text(
            w.flow.at((e.x.whole_part(), e.y.whole_part())),
        ),
    ]
}

fn enemy_heading(w: &World, content: &Content, i: usize) -> (s: String)
    requires
        i < w.enemies@.len(),
    ensures
        s@ == enemy_title(*w, *content, i as int),
{
    let e = &w.enemies[i];
    let mut s = String::new();
    let mut ilvl: u32 = 0;
    if e.archetype < content.enemies.len() {
        s.append(content.enemies[e.archetype].id.as_str());
        ilvl = content.enemies[e.archetype].ilvl;
    } else {
        s.append("?");
    }
    s.append(" #");
    push_decimal(&mut s, e.id);
    s.append("  il");
    push_decimal(&mut s, ilvl as u64);
    if !e.awake {
        s.append("  [idle]");
    }
    assert(s@ =~= enemy_title(*w, *content, i as int));
    s
}

/// The lines of the label above an enemy.
pub fn enemy_lines(w: &World, content: &Content, i: usize, f: &EnemyFigures) -> (lines: Vec<
    String,
>)
    requires
        w.wf(),
        i < w.enemies@.len(),
    ensures
        texts(lines@) == enemy_label(*w, *content, i as int, *f),
{
    let e = &w.enemies[i];
    let mut life = String::new();
    life.append("hp ");
    life.append(f.life.as_str());
    life.append("/");
    life.append(f.max_life.as_str());
    let mut armor = String::new();
    armor.append("arm ");
    armor.append(f.armor.as_str());
    armor.append("  eva ");
    armor.append(f.evasion.as_str());
    let mut speed = String::new();
    speed.append("spd ");
    speed.append(f.speed.as_str());
    speed.append("  d ");
    speed.append(f.distance.as_str());
    speed.append("  flow ");
    let d: u32 = w.flow().distance_at(e.x.truncate(), e.y.truncate());
    if d == UNREACHABLE {
        speed.append("∞");
    } else {
        push_decimal(&mut speed, d as u64);
    }
    let lines: Vec<String> = vec![enemy_heading(w, content, i), life, armor, speed];
    let ghost want = enemy_label(*w, *content, i as int, *f);
    assert(life@ =~= want[1]);
    assert(armor@ =~= want[2]);
    assert(speed@ =~= want[3]);
    assert(texts(lines@) =~= want);
    lines
}

/// The figures of the player's label, written out: life without decimals, the position
/// with one, the cooldown with two.
#[derive(Debug)]
pub struct PlayerFigures {
    pub life: String,
    pub max_life: String,
    pub x: String,
    pub y: String,
    pub cooldown: String,
}

pub open spec fn player_label(w: World, f: PlayerFigures) -> Seq<Seq<char>> {
    seq![
        "PLAYER"@,
        "hp "@ + f.life@ + "/"@ + f.max_life@,
        "pos "@ + f.x@ + ", "@ + f.y@ + "  cd "@ + f.cooldown@,
        "enemies "@ + decimal(w.enemies@.len()) + "  proj "@ + decimal(w.projectiles@.len()),
    ]
}

/// The lines of the label above the player.
pub fn player_lines(w: &World, f: &PlayerFigures) -> (lines: Vec<String>)
    ensures
        texts(lines@) == player_label(*w, *f),
{
    let mut life = String::new();
    life.append("hp ");
    life.append(f.life.as_str());
    life.append("/");
    life.append(f.max_life.as_str());
    let mut pos = String::new();
    pos.append("pos ");
    pos.append(f.x.as_str());
    pos.append(", ");
    pos.append(f.y.as_str());
    pos.append("  cd ");
    pos.append(f.cooldown.as_str());
    let mut counts = String::new();
    counts.append("enemies ");
    push_decimal(&mut counts, w.enemies.len() as u64);
    counts.append("  proj ");
    push_decimal(&mut counts, w.projectiles.len() as u64);
    let lines: Vec<String> = vec!["PLAYER".to_owned(), life, pos, counts];
    let ghost want = player_label(*w, *f);
    assert(life@ =~= want[1]);
    assert(pos@ =~= want[2]);
    assert(counts@ =~= want[3]);
    assert(texts(lines@) =~= want);
    lines
}

/// A connected gamepad as the controller panel shows it, its figures written out.
#[derive(Debug)]
pub struct PadView {
    pub name: String,
    pub left_stick: (String, String),
    pub right_stick: (String, String),
    pub right_trigger: String,
    pub buttons_down: Vec<String>,
}

/// The names of the buttons that are held.
pub open spec fn buttons_text(buttons: Seq<Seq<char>>) -> Seq<char> {
    if buttons.len() == 0 {
        "—"@
    } else {
        joined(buttons, ", "@)
    }
}

pub open spec fn pad_label(i: int, p: PadView) -> Seq<Seq<char>> {
    seq![
        "["@ + decimal(i as nat) + "] "@ + p.name@,
        "  L-stick: ("@ + p.left_stick.0@ + ", "@ + p.left_stick.1@ + ")"@,
        "  R-stick: ("@ + p.right_stick.0@ + ", "@ + p.right_stick.1@ + ")"@,
        "  RT: "@ + p.right_trigger@,
        "  buttons: "@ + buttons_text(texts(p.buttons_down@)),
    ]
}

/// The lines of the controller panel for the `i`-th pad.
pub fn pad_lines(i: usize, p: &PadView) -> (lines: Vec<String>)
    ensures
        texts(lines@) == pad_label(i as int, *p),
{
    let mut name = String::new();
    name.append("[");
    push_decimal(&mut name, i as u64);
    name.append("] ");
    name.append(p.name.as_str());
    let mut left = String::new();
    left.append("  L-stick: (");
    left.append(p.left_stick.0.as_str());
    left.append(", ");
    left.append(p.left_stick.1.as_str());
    left.append(")");
    let mut right = String::new();
    right.append("  R-stick: (");
    right.append(p.right_stick.0.as_str());
    right.append(", ");
    right.append(p.right_stick.1.as_str());
    right.append(")");
    let mut trigger = String::new();
    trigger.append("  RT: ");
    trigger.append(p.right_trigger.as_str());
    let mut buttons = String::new();
    buttons.append("  buttons: ");
    if p.buttons_down.len() == 0 {
        buttons.append("—");
    } else {
        buttons.append(join(&p.buttons_down, ", ").as_str());
    }
    let ghost want = pad_label(i as int, *p);
    assert(name@ =~= want[0]);
    assert(left@ =~= want[1]);
    assert(right@ =~= want[2]);
    assert(trigger@ =~= want[3]);
    assert(texts(p.buttons_down@).len() == p.buttons_down@.len());
    assert(buttons@ =~= want[4]);
    let lines: Vec<String> = vec![name, left, right, trigger, buttons];
    assert(texts(lines@) =~= want);
    lines
}

/// What identifies a pad's maker and model.
pub open spec fn identity_text(vendor: u16, product: u16) -> Seq<char> {
    "  vendor "@ + hex(vendor) + "  product "@ + hex(product)
}

/// The line that identifies a pad, where both numbers are known.
pub fn identity_line(vendor: Option<u16>, product: Option<u16>) -> (line: Option<String>)
    ensures
        match (vendor, product, line) {
            (Some(v), Some(p), Some(s)) => s@ == identity_text(v, p),
            (Some(_), Some(_), None) => false,
            (_, _, line) => line is None,
        },
{
    match (vendor, product) {
        (Some(v), Some(p)) => {
            let mut s = String::new();
            s.append("  vendor ");
            push_hex(&mut s, v);
            s.append("  product ");
            push_hex(&mut s, p);
            assert(s@ =~= identity_text(v, p));
            Some(s)
        },
        _ => None,
    }
}

/// What the pathing view draws on a tile.
#[derive(Debug, Clone, Copy, PartialEq, Eq, Structural)]
pub enum FlowMark {
    /// Nothing: a wall, or out of the player's reach.
    Hidden,
    /// A pad: the way ends here.
    Goal,
    /// An arrow towards a neighboring tile.
    Towards { x: u32, y: u32 },
}

/// Shows on each reachable floor tile the step that the flow field takes from it.
pub fn flow_mark(w: &World, x: u32, y: u32) -> (m: FlowMark)
    requires
        w.wf(),
    ensures
        match m {
            FlowMark::Hidden => w.map.tile((x as int, y as int)) == Tile::Wall || w.flow.at(
                (x as int, y as int),
            ) == UNREACHABLE,
            FlowMark::Goal => {
                &&& w.map.tile((x as int, y as int)) == Tile::Floor
                &&& w.flow.at((x as int, y as int)) != UNREACHABLE
                &&& w.flow.is_next_step((x as int, y as int), None)
            },
            FlowMark::Towards { x: nx, y: ny } => {
                &&& w.map.tile((x as int, y as int)) == Tile::Floor
                &&& w.flow.at((x as int, y as int)) != UNREACHABLE
                &&& w.flow.is_next_step((x as int, y as int), Some((nx, ny)))
            },
        },
{
    match w.map.tile_at(x, y) {
        Tile::Wall => FlowMark::Hidden,
        Tile::Floor => {
            if w.flow().distance_at(x, y) == UNREACHABLE {
                return FlowMark::Hidden;
            }
            match w.flow().next_step_from(x, y) {
                Some((nx, ny)) => FlowMark::Towards { x: nx, y: ny },
                None => FlowMark::Goal,
            }
        },
    }
}

/// The weapons in a list of bases are those that go into the weapon slot, in their order.
pub proof fn law_weapons_of_the_list(bases: Seq<BaseItem>, n: int, i: usize)
    requires
        0 <= n <= bases.len() <= usize::MAX,
    ensures
        weapons_among(bases, n).contains(i) <==> i < n && bases[i as int].slot@ == "weapon"@,
        forall|a: int, b: int|
            0 <= a < b < weapons_among(bases, n).len() ==> weapons_among(bases, n)[a]
                < weapons_among(bases, n)[b],
        forall|a: int|
            0 <= a < weapons_among(bases, n).len() ==> #[trigger] weapons_among(bases, n)[a] < n,
    decreases n,
{
    if n > 0 {
        law_weapons_of_the_list(bases, n - 1, i);
        let before = weapons_among(bases, n - 1);
        let after = weapons_among(bases, n);
        if bases[n - 1].slot@ == "weapon"@ {
            assert(after[before.len() as int] == (n - 1) as usize);
            if before.contains(i) {
                let k = choose|k: int| 0 <= k < before.len() && before[k] == i;
                assert(after[k] == i);
            }
            if after.contains(i) {
                let k = choose|k: int| 0 <= k < after.len() && after[k] == i;
                if k < before.len() {
                    assert(before[k] == i);
                }
            }
            assert forall|a: int, b: int| 0 <= a < b < after.len() implies after[a] < after[b] by {
                if b < before.len() {
                    assert(before[a] < before[b]);
                } else {
                    assert(before[a] < n - 1);
                }
            }
        }
    }
}

/// What the last hit reads as: what it dealt, with a note if it was critical; or that it was
/// dodged; or a dash where nothing was hit yet.
pub proof fn law_last_hit(damage: Seq<char>, dealt: Scalar)
    ensures
        hit_text(Some(HitResult::Hit { damage_dealt: dealt, was_crit: true }), damage)
            == "last hit "@ + damage + " CRIT"@,
        hit_text(Some(HitResult::Hit { damage_dealt: dealt, was_crit: false }), damage)
            == "last hit "@ + damage,
        hit_text(Some(HitResult::Dodged), damage) == "last hit DODGED"@,
        hit_text(None, damage) == "last hit —"@,
{
    assert("last hit "@ + damage + Seq::<char>::empty() =~= "last hit "@ + damage);
}

/// An enemy's label starts with its kind, its id and its level, and says whether it is
/// dormant.
pub proof fn law_enemy_titles(w: World, content: Content, i: int)
    requires
        0 <= i < w.enemies@.len(),
    ensures
        ({
            let e = w.enemies@[i];
            let known = e.archetype < content.enemies@.len();
            let kind = content.enemies@[e.archetype as int];
            exists|id: Seq<char>, level: Seq<char>|
                #![trigger spelled(id, 10), spelled(level, 10)]
                {
                    &&& spelled(id, 10) == e.id
                    &&& spelled(level, 10) == if known {
                        kind.ilvl as int
                    } else {
                        0
                    }
                    &&& enemy_title(w, content, i) == (if known {
                        kind.id@
                    } else {
                        "?"@
                    }) + " #"@ + id + "  il"@ + level + (if e.awake {
                        Seq::empty()
                    } else {
                        "  [idle]"@
                    })
                }
        }),
{
    let e = w.enemies@[i];
    let known = e.archetype < content.enemies@.len();
    let level = if known {
        content.enemies@[e.archetype as int].ilvl as nat
    } else {
        0
    };
    law_digits_spell_the_number(e.id as nat);
    law_digits_spell_the_number(level);
    assert(spelled(decimal(e.id as nat), 10) == e.id);
    assert(spelled(decimal(level), 10) == level);
}

/// What the footer counts: the enemies, the projectiles and the drops of the world, and the
/// tile that the player stands on.
pub proof fn law_footer_counts(w: World)
    ensures
        exists|d: Seq<Seq<char>>|
            {
                &&& #[trigger] d.len() == 5
                &&& spelled(d[0], 10) == w.enemies@.len()
                &&& spelled(d[1], 10) == w.projectiles@.len()
                &&& spelled(d[2], 10) == w.drops@.len()
                &&& spelled(d[3], 10) == w.player.x.whole_part()
                &&& spelled(d[4], 10) == w.player.y.whole_part()
                &&& counts_text(w) == "enemies "@ + d[0] + "   projectiles "@ + d[1] + "   drops "@
                    + d[2]
                &&& tile_text(w) == "player tile ("@ + d[3] + ", "@ + d[4] + ")"@
            },
{
    let x = w.player.x.whole_part() as nat;
    let y = w.player.y.whole_part() as nat;
    let d = seq![
        decimal(w.enemies@.len()),
        decimal(w.projectiles@.len()),
        decimal(w.drops@.len()),
        decimal(x),
        decimal(y),
    ];
    law_digits_spell_the_number(w.enemies@.len());
    law_digits_spell_the_number(w.projectiles@.len());
    law_digits_spell_the_number(w.drops@.len());
    law_digits_spell_the_number(x);
    law_digits_spell_the_number(y);
    lemma_whole_parts(w.player.x);
    lemma_whole_parts(w.player.y);
    assert(d.len() == 5);
}

proof fn lemma_whole_parts(s: Scalar)
    ensures
        s.whole_part() >= 0,
{
    crate::scalar::lemma_magnitude_order(0, s.body());
    crate::scalar::lemma_magnitude_order(0, 0);
    vstd::arithmetic::power2::lemma_pow2_pos(149);
    let m = crate::scalar::magnitude(s.body());
    let p = vstd::arithmetic::power2::pow2(149) as int;
    assert(m >= 0);
    assert(m / p >= 0) by (nonlinear_arith)
        requires
            m >= 0,
            p > 0,
    ;
}

/// Steps to the player are counted in digits, or shown as endless where there is no way.
pub proof fn law_steps_read_as_counted(d: u32)
    ensures
        d != u32::MAX ==> spelled(steps_text(d), 10) == d,
        d == u32::MAX ==> steps_text(d) == "∞"@,
{
    law_digits_spell_the_number(d as nat);
}

} // verus!
