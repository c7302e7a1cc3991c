//! The heads-up display: health, run stats, weapon lines and the death screen.

use vstd::prelude::*;

use crate::game::entity::{EquippedWeapon, FireProfile};
use crate::game::world::World;
use crate::rules::progression::{is_level_for, level_for_total_xp};
use crate::text::{
    decimal, join, joined, law_digits_spell_the_number, push_decimal, spelled, texts,
};

verus! {

/// The figures that the display shows, written out: without decimals, the rate and the
/// blast radius with one.
#[derive(Debug)]
pub struct HudFigures {
    pub life: String,
    pub max_life: String,
    pub damage: String,
    pub rate: String,
    pub blast_radius: String,
}

/// What the display says. Lines that have nothing to say are empty.
#[derive(Debug)]
pub struct Hud {
    pub health: String,
    pub stats: String,
    pub weapon: String,
    pub wheel: String,
    pub pickup: String,
    /// Whether the death screen covers the view.
    pub dead: bool,
}

/// The hint at the bottom of the screen.
pub open spec fn controls_text() -> Seq<char> {
    "WASD move  |  aim  |  LMB / Space shoot  |  1-4 / wheel weapon  |  I inventory  |  ESC quit"@
}

pub fn controls() -> (s: &'static str)
    ensures
        s@ == controls_text(),
{
    "WASD move  |  aim  |  LMB / Space shoot  |  1-4 / wheel weapon  |  I inventory  |  ESC quit"
}

/// What the death screen says, the headline and the line below it.
pub fn death_notice() -> (lines: (&'static str, &'static str))
    ensures
        lines.0@ == "YOU DIED"@,
        lines.1@ == "press R to restart"@,
{
    ("YOU DIED", "press R to restart")
}

pub open spec fn health_text(f: HudFigures) -> Seq<char> {
    f.life@ + " / "@ + f.max_life@
}

pub open spec fn stats_text(w: World, level: int) -> Seq<char> {
    "Lv "@ + decimal(level as nat) + "   kills "@ + decimal(w.kills as nat) + "   xp "@ + decimal(
        w.xp as nat,
    ) + "   enemies "@ + decimal(w.enemies@.len()) + "   loot "@ + decimal(w.inventory@.len())
}

/// What sets a weapon's shots apart.
pub open spec fn profile_text(w: World, profile: FireProfile, f: HudFigures) -> Seq<char> {
    match profile {
        FireProfile::Spread { .. } => "   "@ + decimal(w.tunables.spread_pellets as nat)
            + "-pellet spread"@,
        FireProfile::Explosive { .. } => "   blast r"@ + f.blast_radius@,
        FireProfile::Single => Seq::empty(),
    }
}

pub open spec fn weapon_text(w: World, eq: EquippedWeapon, f: HudFigures) -> Seq<char> {
    "weapon: "@ + eq.name@ + "   dmg "@ + f.damage@ + "   rate "@ + f.rate@ + "/s"@ + profile_text(
        w,
        eq.profile,
        f,
    )
}

/// A weapon on the wheel: its number, from one, and its name; the active one has a star.
pub open spec fn slot_text(i: int, name: Seq<char>, active: bool) -> Seq<char> {
    decimal((i + 1) as nat) + ":"@ + name + (if active {
        "*"@
    } else {
        Seq::empty()
    })
}

/// The wheel lists the rack, if that holds more than one weapon.
pub open spec fn wheel_text(w: World) -> Seq<char> {
    if w.loadout@.len() > 1 {
        joined(
            Seq::new(
                w.loadout@.len(),
                |i: int| slot_text(i, w.loadout@[i].name@, i == w.active),
            ),
            "  "@,
        )
    } else {
        Seq::empty()
    }
}

pub open spec fn pickup_line(w: World) -> Seq<char> {
    match w.last_pickup {
        Some(last) => "picked up: "@ + last@,
        None => Seq::empty(),
    }
}

fn health_line(f: &HudFigures) -> (s: String)
    ensures
        s@ == health_text(*f),
{
    let mut s = String::new();
    s.append(f.life.as_str());
    s.append(" / ");
    s.append(f.max_life.as_str());
    assert(s@ =~= health_text(*f));
    s
}

fn stats_line(w: &World) -> (s: String)
    ensures
        exists|level: int|
            #[trigger] is_level_for(level, w.xp as int) && s@ == stats_text(*w, level),
{
    let level: u8 = level_for_total_xp(w.xp);
    let mut s = String::new();
    s.append("Lv ");
    push_decimal(&mut s, level as u64);
    s.append("   kills ");
    push_decimal(&mut s, w.kills as u64);
    s.append("   xp ");
    push_decimal(&mut s, w.xp);
    s.append("   enemies ");
    push_decimal(&mut s, w.enemies.len() as u64);
    s.append("   loot ");
    push_decimal(&mut s, w.inventory.len() as u64);
    assert(s@ =~= stats_text(*w, level as int));
    assert(is_level_for(level as int, w.xp as int));
    s
}

fn weapon_line(w: &World, eq: &EquippedWeapon, f: &HudFigures) -> (s: String)
    ensures
        s@ == weapon_text(*w, *eq, *f),
{
    let mut s = String::new();
    s.append("weapon: ");
    s.append(eq.name.as_str());
    s.append("   dmg ");
    s.append(f.damage.as_str());
    s.append("   rate ");
    s.append(f.rate.as_str());
    s.append("/s");
    match eq.profile {
        FireProfile::Spread { .. } => {
            s.append("   ");
            push_decimal(&mut s, w.tunables.spread_pellets as u64);
            s.append("-pellet spread");
        },
        FireProfile::Explosive { .. } => {
            s.append("   blast r");
            s.append(f.blast_radius.as_str());
        },
        FireProfile::Single => {},
    }
    assert(s@ =~= weapon_text(*w, *eq, *f));
    s
}

fn wheel_line(w: &World) -> (s: String)
    ensures
        s@ == wheel_text(*w),
{
    let n: usize = w.loadout.len();
    if n <= 1 {
        let s = String::new();
        assert(s@ =~= wheel_text(*w));
        return s;
    }
    let ghost slots = Seq::new(
        w.loadout@.len(),
        |i: int| slot_text(i, w.loadout@[i].name@, i == w.active),
    );
    let mut parts: Vec<String> = Vec::new();
    for i in 0..n
        invariant
            n == w.loadout@.len(),
            slots == Seq::new(
                w.loadout@.len(),
                |i: int| slot_text(i, w.loadout@[i].name@, i == w.active),
            ),
            parts.len() == i,
            forall|k: int| 0 <= k < i ==> (#[trigger] parts@[k])@ == slots[k],
    {
        let mut s = String::new();
        push_decimal(&mut s, i as u64 + 1);
        s.append(":");
        s.append(w.loadout[i].name.as_str());
        if i == w.active {
            s.append("*");
        }
        assert(s@ =~= slots[i as int]);
        parts.push(s);
    }
    assert(texts(parts@) =~= slots);
    join(&parts, "  ")
}

/// What the display says of a (possibly frozen) world.
pub fn hud_update(w: &World, f: &HudFigures) -> (h: Hud)
    requires
        w.wf(),
    ensures
        h.health@ == health_text(*f),
        exists|level: int|
            #[trigger] is_level_for(level, w.xp as int) && h.stats@ == stats_text(*w, level),
        h.weapon@ == if w.loadout@.len() > 0 {
            weapon_text(*w, w.loadout@[w.active as int], *f)
        } else {
            Seq::empty()
        },
        h.wheel@ == wheel_text(*w),
        h.pickup@ == pickup_line(*w),
        h.dead == w.game_over,
{
    let weapon = match w.equipped() {
        Some(eq) => weapon_line(w, eq, f),
        None => {
            let s = String::new();
            assert(s@ =~= Seq::<char>::empty());
            s
        },
    };
    let mut pickup = String::new();
    if let Some(last) = &w.last_pickup {
        pickup.append("picked up: ");
        pickup.append(last.as_str());
    }
    assert(pickup@ =~= pickup_line(*w));
    Hud {
        health: health_line(f),
        stats: stats_line(w),
        weapon,
        wheel: wheel_line(w),
        pickup,
        dead: w.game_over,
    }
}

/// What the line of the run says: the level, the kills, the XP, the living enemies and the
/// items in the bag, in this order and in digits.
pub proof fn law_run_line(w: World, level: int)
    requires
        is_level_for(level, w.xp as int),
    ensures
        exists|d: Seq<Seq<char>>|
            {
                &&& #[trigger] d.len() == 5
                &&& spelled(d[0], 10) == level
                &&& spelled(d[1], 10) == w.kills
                &&& spelled(d[2], 10) == w.xp
                &&& spelled(d[3], 10) == w.enemies@.len()
                &&& spelled(d[4], 10) == w.inventory@.len()
                &&& stats_text(w, level) == "Lv "@ + d[0] + "   kills "@ + d[1] + "   xp "@ + d[2]
                    + "   enemies "@ + d[3] + "   loot "@ + d[4]
            },
{
    let d = seq![
        decimal(level as nat),
        decimal(w.kills as nat),
        decimal(w.xp as nat),
        decimal(w.enemies@.len()),
        decimal(w.inventory@.len()),
    ];
    law_digits_spell_the_number(level as nat);
    law_digits_spell_the_number(w.kills as nat);
    law_digits_spell_the_number(w.xp as nat);
    law_digits_spell_the_number(w.enemies@.len());
    law_digits_spell_the_number(w.inventory@.len());
    assert(d.len() == 5);
}

/// The wheel names every weapon of a rack that holds more than one, by its number, counted
/// from one, and its name, with a star at the active one; it is empty otherwise.
pub proof fn law_the_wheel(w: World, i: int)
    ensures
        w.loadout@.len() <= 1 ==> wheel_text(w).len() == 0,
        w.loadout@.len() > 1 ==> exists|parts: Seq<Seq<char>>|
            {
                &&& wheel_text(w) == #[trigger] joined(parts, "  "@)
                &&& parts.len() == w.loadout@.len()
                &&& 0 <= i < parts.len() ==> parts[i] == decimal((i + 1) as nat) + ":"@
                    + w.loadout@[i].name@ + (if i == w.active {
                    "*"@
                } else {
                    Seq::empty()
                })
            },
{
    if w.loadout@.len() > 1 {
        let parts = Seq::new(
            w.loadout@.len(),
            |i: int| slot_text(i, w.loadout@[i].name@, i == w.active),
        );
        assert(wheel_text(w) == joined(parts, "  "@));
    }
}

/// What the line of the weapon says: its name, its damage and its rate, and for one that
/// spreads its shots how many pellets there are, for an explosive one how far it reaches.
pub proof fn law_weapon_line(w: World, eq: EquippedWeapon, f: HudFigures)
    ensures
        ({
            let plain = "weapon: "@ + eq.name@ + "   dmg "@ + f.damage@ + "   rate "@ + f.rate@
                + "/s"@;
            &&& eq.profile is Single ==> weapon_text(w, eq, f) == plain
            &&& eq.profile is Explosive ==> weapon_text(w, eq, f) == plain + "   blast r"@
                + f.blast_radius@
            &&& eq.profile is Spread ==> exists|n: Seq<char>|
                #[trigger] spelled(n, 10) == w.tunables.spread_pellets && weapon_text(w, eq, f)
                    == plain + "   "@ + n + "-pellet spread"@
        }),
{
    let plain = "weapon: "@ + eq.name@ + "   dmg "@ + f.damage@ + "   rate "@ + f.rate@ + "/s"@;
    let n = decimal(w.tunables.spread_pellets as nat);
    law_digits_spell_the_number(w.tunables.spread_pellets as nat);
    assert(plain + Seq::<char>::empty() =~= plain);
    assert(plain + ("   blast r"@ + f.blast_radius@) =~= plain + "   blast r"@ + f.blast_radius@);
    assert(plain + ("   "@ + n + "-pellet spread"@) =~= plain + "   "@ + n + "-pellet spread"@);
    assert(spelled(n, 10) == w.tunables.spread_pellets);
}

/// What the other lines say: the life and the most of it, and what was picked up last if
/// anything was.
pub proof fn law_other_lines(w: World, f: HudFigures)
    ensures
        health_text(f) == f.life@ + " / "@ + f.max_life@,
        w.last_pickup is None ==> pickup_line(w).len() == 0,
        w.last_pickup matches Some(s) ==> pickup_line(w) == "picked up: "@ + s@,
{
}

} // verus!
