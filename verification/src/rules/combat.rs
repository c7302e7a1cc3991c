//! Combat: who fights, how a shot is decided, and who wins a fight.
//!
//! The library settles what is drawn, compared and decided; the numbers in between —
//! damage, mitigation, the time of the next shot — are computed by its callers and
//! handed in.

use vstd::arithmetic::power2::pow2;
use vstd::prelude::*;

use crate::rng::{answer_word32, unit_of, Draw, RngState, SeededRng};
use crate::rules::stats::StatId;
use crate::scalar::{Scalar, INFINITY};
use crate::text::same_text;

verus! {

#[derive(Debug, Clone, Copy, PartialEq, Eq, Structural)]
pub struct Combatant {
    pub max_life: Scalar,
    pub current_life: Scalar,
    pub armor: Scalar,
    pub evasion: Scalar,
}

/// The final value of one stat.
#[derive(Debug)]
pub struct StatValue {
    pub stat: StatId,
    pub value: Scalar,
}

/// The value of a stat: that of the first entry with its name, or zero.
pub open spec fn stat_of(stats: Seq<StatValue>, key: Seq<char>) -> Scalar
    decreases stats.len(),
{
    if stats.len() == 0 {
        Scalar { bits: 0 }
    } else if stats[0].stat@ == key {
        stats[0].value
    } else {
        stat_of(stats.drop_first(), key)
    }
}

/// The value of a stat, or zero where there is none.
pub fn get(stats: &[StatValue], key: &str) -> (value: Scalar)
    ensures
        value == stat_of(stats@, key@),
{
    proof {
        assert(stats@.skip(0) =~= stats@);
    }
    for i in 0..stats.len()
        invariant
            stat_of(stats@, key@) == stat_of(stats@.skip(i as int), key@),
    {
        proof {
            assert(stats@.skip(i as int).drop_first() =~= stats@.skip(i + 1));
        }
        if same_text(stats[i].stat.as_str(), key) {
            return stats[i].value;
        }
    }
    Scalar { bits: 0 }
}

impl Combatant {
    /// A naked dummy with the given hit-point pool — useful for normalizing weapon DPS
    /// to a baseline target.
    pub fn dummy(max_life: Scalar) -> (c: Combatant)
        ensures
            c == (Combatant {
                max_life,
                current_life: max_life,
                armor: Scalar { bits: 0 },
                evasion: Scalar { bits: 0 },
            }),
    {
        Combatant {
            max_life,
            current_life: max_life,
            armor: Scalar { bits: 0 },
            evasion: Scalar { bits: 0 },
        }
    }

    /// What a character's life is the sum of: the character's own, and what its gear adds.
    pub fn life_terms(stats: &[StatValue], base_life: Scalar) -> (terms: (Scalar, Scalar))
        ensures
            terms == (base_life, stat_of(stats@, "life"@)),
    {
        (base_life, get(stats, "life"))
    }

    /// A character with the given life, whose armor and evasion come entirely from gear.
    pub fn from_armor_stats(stats: &[StatValue], life: Scalar) -> (c: Combatant)
        ensures
            c == (Combatant {
                max_life: life,
                current_life: life,
                armor: stat_of(stats@, "armor"@),
                evasion: stat_of(stats@, "evasion"@),
            }),
    {
        Combatant {
            max_life: life,
            current_life: life,
            armor: get(stats, "armor"),
            evasion: get(stats, "evasion"),
        }
    }

    /// Whether no life is left.
    pub open spec fn is_dead(self) -> bool {
        !self.current_life.is_nan() && self.current_life.value() <= 0
    }

    pub fn dead(&self) -> (r: bool)
        ensures
            r == self.is_dead(),
    {
        self.current_life.le(&Scalar::zero())
    }
}

#[derive(Debug, Clone, Copy, PartialEq, Eq, Structural)]
pub struct Weapon {
    pub damage_per_shot: Scalar,
    pub fire_rate: Scalar,
    pub crit_chance: Scalar,
    /// Total multiplier on a crit hit. 1.5 = "crits do 150% damage."
    pub crit_multiplier: Scalar,
}

/// The bit pattern of 1.
pub const ONE_BITS: u32 = 0x3f80_0000;

/// A number moved into the unit interval; what is no number stays as it is.
pub open spec fn clamped(x: Scalar) -> Scalar {
    if x.less_than(Scalar { bits: 0 }) {
        Scalar { bits: 0 }
    } else if (Scalar { bits: ONE_BITS }).less_than(x) {
        Scalar { bits: ONE_BITS }
    } else {
        x
    }
}

impl Weapon {
    /// The damage stats whose sum is the damage per shot: the weapon's own and the flat
    /// bullet, incendiary, armor-piercing and explosive damage.
    pub fn damage_terms(stats: &[StatValue]) -> (terms: Vec<Scalar>)
        ensures
            terms@ == seq![
                stat_of(stats@, "weapon_damage"@),
                stat_of(stats@, "bullet_damage"@),
                stat_of(stats@, "incendiary_damage"@),
                stat_of(stats@, "armor_piercing_damage"@),
                stat_of(stats@, "explosive_damage"@),
            ],
    {
        let mut terms: Vec<Scalar> = Vec::new();
        terms.push(get(stats, "weapon_damage"));
        terms.push(get(stats, "bullet_damage"));
        terms.push(get(stats, "incendiary_damage"));
        terms.push(get(stats, "armor_piercing_damage"));
        terms.push(get(stats, "explosive_damage"));
        assert(terms@ =~= seq![
            stat_of(stats@, "weapon_damage"@),
            stat_of(stats@, "bullet_damage"@),
            stat_of(stats@, "incendiary_damage"@),
            stat_of(stats@, "armor_piercing_damage"@),
            stat_of(stats@, "explosive_damage"@),
        ]);
        terms
    }

    /// What the crit multiplier is the sum of: one, and the crit damage stat, which is the
    /// bonus on top.
    pub fn crit_terms(stats: &[StatValue]) -> (terms: (Scalar, Scalar))
        ensures
            terms == (Scalar { bits: ONE_BITS }, stat_of(stats@, "crit_damage"@)),
    {
        (Scalar { bits: ONE_BITS }, get(stats, "crit_damage"))
    }

    /// A weapon with the given stats: the damage is the sum of its damage terms and the
    /// crit multiplier is one more than the crit damage stat; the crit chance is kept
    /// within the unit interval.
    pub fn from_stats(stats: &[StatValue], damage: Scalar, crit_multiplier: Scalar) -> (w: Weapon)
        ensures
            w == (Weapon {
                damage_per_shot: damage,
                fire_rate: stat_of(stats@, "fire_rate"@),
                crit_chance: clamped(stat_of(stats@, "crit_chance"@)),
                crit_multiplier,
            }),
    {
        let chance = get(stats, "crit_chance");
        let crit_chance = if chance.lt(&Scalar { bits: 0 }) {
            Scalar { bits: 0 }
        } else if (Scalar { bits: ONE_BITS }).lt(&chance) {
            Scalar { bits: ONE_BITS }
        } else {
            chance
        };
        Weapon {
            damage_per_shot: damage,
            fire_rate: get(stats, "fire_rate"),
            crit_chance,
            crit_multiplier,
        }
    }
}

/// The highest chance to dodge: 0.5. Stacking pure evasion can't make a character immortal.
pub const MAX_DODGE: u32 = 0x3f00_0000;

/// The highest share of a hit that armor absorbs: 0.85. Armor isn't a hard wall.
pub const MAX_MITIGATION: u32 = 0x3f59_999a;

/// The lesser of two numbers, the second being one.
pub open spec fn capped(x: Scalar, cap: Scalar) -> Scalar {
    if x.is_nan() || cap.less_than(x) {
        cap
    } else {
        x
    }
}

fn cap_at(x: Scalar, cap: Scalar) -> (r: Scalar)
    requires
        !cap.is_nan(),
    ensures
        r == capped(x, cap),
{
    if x.le(&cap) {
        x
    } else {
        cap
    }
}

/// Whether a number is at most zero.
pub open spec fn is_spent(x: Scalar) -> bool {
    !x.is_nan() && x.value() <= 0
}

/// Probability of a hit being dodged: none without evasion, otherwise the given ratio of
/// the evasion to itself and a hundred, capped.
pub open spec fn dodge_of(evasion: Scalar, ratio: Scalar) -> Scalar {
    if is_spent(evasion) {
        Scalar { bits: 0 }
    } else {
        capped(ratio, Scalar { bits: MAX_DODGE })
    }
}

/// Probability of a hit being dodged. Diminishing returns, capped at 50%.
pub fn dodge_chance(evasion: &Scalar, ratio: Scalar) -> (p: Scalar)
    ensures
        p == dodge_of(*evasion, ratio),
{
    if evasion.le(&Scalar::zero()) {
        Scalar::zero()
    } else {
        cap_at(ratio, Scalar { bits: MAX_DODGE })
    }
}

/// Fraction of incoming damage absorbed by armor: nothing without armor or against no
/// damage, otherwise the given ratio of the armor to itself and ten times the hit, capped.
pub open spec fn mitigation_of(armor: Scalar, hit: Scalar, ratio: Scalar) -> Scalar {
    if is_spent(armor) || is_spent(hit) {
        Scalar { bits: 0 }
    } else {
        capped(ratio, Scalar { bits: MAX_MITIGATION })
    }
}

/// Fraction of incoming damage absorbed by armor against a hit of given size. Big hits
/// punch through armor harder than small ones. Capped at 85%.
pub fn armor_mitigation(armor: &Scalar, hit_damage: &Scalar, ratio: Scalar) -> (m: Scalar)
    ensures
        m == mitigation_of(*armor, *hit_damage, ratio),
{
    let zero = Scalar::zero();
    if armor.le(&zero) || hit_damage.le(&zero) {
        zero
    } else {
        cap_at(ratio, Scalar { bits: MAX_MITIGATION })
    }
}

/// However much evasion or armor a target has, at least half of the shots hit, and a hit
/// keeps at least fifteen percent of its damage.
pub proof fn law_defenses_are_capped(evasion: Scalar, armor: Scalar, hit: Scalar, ratio: Scalar)
    ensures
        !dodge_of(evasion, ratio).is_nan(),
        dodge_of(evasion, ratio).value() <= (Scalar { bits: MAX_DODGE }).value(),
        !mitigation_of(armor, hit, ratio).is_nan(),
        mitigation_of(armor, hit, ratio).value() <= (Scalar { bits: MAX_MITIGATION }).value(),
{
    crate::scalar::lemma_magnitude_order(0, MAX_DODGE as int);
    crate::scalar::lemma_magnitude_order(0, MAX_MITIGATION as int);
}

/// Expected damage of a single hit, folding crit, dodge and armor: what they come to, or
/// nothing for a weapon that does no damage.
pub fn expected_hit_damage(weapon: &Weapon, folded: Scalar) -> (damage: Scalar)
    ensures
        damage == if is_spent(weapon.damage_per_shot) {
            Scalar { bits: 0 }
        } else {
            folded
        },
{
    if weapon.damage_per_shot.le(&Scalar::zero()) {
        Scalar::zero()
    } else {
        folded
    }
}

/// Expected seconds to deplete a target: what its life and the damage per second come to,
/// or `None` when nothing is dealt.
pub fn time_to_kill(dps: &Scalar, seconds: Scalar) -> (t: Option<Scalar>)
    ensures
        t == if is_spent(*dps) {
            None
        } else {
            Some(seconds)
        },
{
    if dps.le(&Scalar::zero()) {
        None
    } else {
        Some(seconds)
    }
}

/// The time between two shots: what the fire rate comes to, or forever for a weapon that
/// does not fire.
pub fn shot_period(fire_rate: &Scalar, period: Scalar) -> (p: Scalar)
    ensures
        p == if !fire_rate.is_nan() && fire_rate.value() > 0 {
            period
        } else {
            Scalar { bits: INFINITY }
        },
{
    if fire_rate.is_positive() {
        period
    } else {
        Scalar { bits: INFINITY }
    }
}

impl Combatant {
    /// The combatant after a hit that leaves so much life; life never falls below zero.
    pub open spec fn hurt_of(self, left: Scalar) -> Combatant {
        Combatant { current_life: left.or_zero(), ..self }
    }

    pub fn hurt(&mut self, left: Scalar)
        ensures
            *final(self) == old(self).hurt_of(left),
    {
        self.current_life = left.floored();
    }
}

/// How a shot was decided.
#[derive(Debug, Clone, Copy, PartialEq, Eq, Structural)]
pub enum ShotRoll {
    Dodged,
    Hit { was_crit: bool },
}

#[derive(Debug, Clone, Copy, PartialEq, Eq, Structural)]
pub enum HitResult {
    Dodged,
    Hit { damage_dealt: Scalar, was_crit: bool },
}

/// Whether an event of the given chance happens, and the generator after that: an event
/// without a chance is not drawn for.
pub open spec fn chance_event(g: RngState, chance: Scalar) -> (bool, RngState) {
    if !chance.is_nan() && chance.value() > 0 {
        (chance.above_draw(unit_of(g)), g.after(Draw::Word32))
    } else {
        (false, g)
    }
}

/// How a shot is decided, and the generator after that: first whether it is dodged, then,
/// if it is not, whether it is a critical hit.
pub open spec fn shot_roll(g: RngState, dodge: Scalar, crit: Scalar) -> (ShotRoll, RngState) {
    let (dodged, g1) = chance_event(g, dodge);
    if dodged {
        (ShotRoll::Dodged, g1)
    } else {
        let (was_crit, g2) = chance_event(g1, crit);
        (ShotRoll::Hit { was_crit }, g2)
    }
}

/// Draws for an event of the given chance.
pub(crate) fn roll_chance(rng: &mut SeededRng, chance: &Scalar) -> (r: bool)
    ensures
        (r, final(rng)@) == chance_event(old(rng)@, *chance),
{
    if !chance.is_positive() {
        return false;
    }
    let draw: u32 = rng.unit();
    chance.exceeds_draw(draw)
}

/// Rolls one shot of `weapon` at a target that dodges with the given chance. Dodge first,
/// then crit.
fn roll_shot(rng: &mut SeededRng, weapon: &Weapon, dodge: &Scalar) -> (roll: ShotRoll)
    ensures
        (roll, final(rng)@) == shot_roll(old(rng)@, *dodge, weapon.crit_chance),
{
    if roll_chance(rng, dodge) {
        return ShotRoll::Dodged;
    }
    let was_crit = roll_chance(rng, &weapon.crit_chance);
    ShotRoll::Hit { was_crit }
}

/// What the arithmetic of a hit comes to: the ratio of the target's armor to itself and ten
/// times the hit, the damage once the mitigation is taken off, and the life that is left
/// after what is dealt.
#[derive(Debug, Clone, Copy, PartialEq, Eq, Structural)]
pub struct Blow {
    pub ratio: Scalar,
    pub mitigated: Scalar,
    pub left: Scalar,
}

/// The arithmetic of a shot at a target, worked out ahead of the roll: the ratio of the
/// target's evasion to itself and a hundred, the damage of a critical hit before
/// mitigation, and what a plain and a critical hit come to.
#[derive(Debug, Clone, Copy, PartialEq, Eq, Structural)]
pub struct Aimed {
    pub ratio: Scalar,
    pub crit_damage: Scalar,
    pub plain: Blow,
    pub crit: Blow,
}

impl Aimed {
    /// The chance of the target to dodge the shot.
    pub open spec fn dodge(self, target: Combatant) -> Scalar {
        dodge_of(target.evasion, self.ratio)
    }

    /// What a hit comes to.
    pub open spec fn blow(self, was_crit: bool) -> Blow {
        if was_crit {
            self.crit
        } else {
            self.plain
        }
    }

    /// The damage of a hit before mitigation: the weapon's own, unless it is critical.
    pub open spec fn damage(self, weapon: Weapon, was_crit: bool) -> Scalar {
        if was_crit {
            self.crit_damage
        } else {
            weapon.damage_per_shot
        }
    }

    /// The damage that a hit deals: all of it where nothing is mitigated.
    pub open spec fn dealt(self, weapon: Weapon, target: Combatant, was_crit: bool) -> Scalar {
        let hit = self.damage(weapon, was_crit);
        let blow = self.blow(was_crit);
        if mitigation_of(target.armor, hit, blow.ratio) == (Scalar { bits: 0 }) {
            hit
        } else {
            blow.mitigated
        }
    }

    /// How a shot of `weapon` at `target` is decided, and the generator after that.
    pub open spec fn roll(self, g: RngState, weapon: Weapon, target: Combatant) -> (
        ShotRoll,
        RngState,
    ) {
        shot_roll(g, self.dodge(target), weapon.crit_chance)
    }

    /// How a shot of `weapon` at `target` ends that was decided like this.
    pub open spec fn result(self, weapon: Weapon, target: Combatant, roll: ShotRoll) -> HitResult {
        match roll {
            ShotRoll::Dodged => HitResult::Dodged,
            ShotRoll::Hit { was_crit } => HitResult::Hit {
                damage_dealt: self.dealt(weapon, target, was_crit),
                was_crit,
            },
        }
    }

    /// The target after a shot that was decided like this: a dodged shot leaves it as it is.
    pub open spec fn on(self, target: Combatant, roll: ShotRoll) -> Combatant {
        match roll {
            ShotRoll::Dodged => target,
            ShotRoll::Hit { was_crit } => target.hurt_of(self.blow(was_crit).left),
        }
    }
}

/// The damage that a hit of the given size deals to a target.
fn damage_dealt(hit: Scalar, target: &Combatant, blow: &Blow) -> (dealt: Scalar)
    ensures
        dealt == if mitigation_of(target.armor, hit, blow.ratio) == (Scalar { bits: 0 }) {
            hit
        } else {
            blow.mitigated
        },
{
    let mitigation = armor_mitigation(&target.armor, &hit, blow.ratio);
    if mitigation.bits == 0 {
        hit
    } else {
        blow.mitigated
    }
}

/// Roll one shot of `weapon` at `target` and apply it: dodge first, then crit, then the
/// mitigation of the armor; a hit takes its damage from the target's life.
pub fn resolve_hit(
    rng: &mut SeededRng,
    weapon: &Weapon,
    target: &mut Combatant,
    aimed: &Aimed,
) -> (result: HitResult)
    ensures
        ({
            let (roll, g) = aimed.roll(old(rng)@, *weapon, *old(target));
            &&& result == aimed.result(*weapon, *old(target), roll)
            &&& *final(target) == aimed.on(*old(target), roll)
            &&& final(rng)@ == g
        }),
{
    let dodge = dodge_chance(&target.evasion, aimed.ratio);
    match roll_shot(rng, weapon, &dodge) {
        ShotRoll::Dodged => HitResult::Dodged,
        ShotRoll::Hit { was_crit } => {
            let (hit, blow) = if was_crit {
                (aimed.crit_damage, aimed.crit)
            } else {
                (weapon.damage_per_shot, aimed.plain)
            };
            let dealt = damage_dealt(hit, target, &blow);
            target.hurt(blow.left);
            HitResult::Hit { damage_dealt: dealt, was_crit }
        },
    }
}

/// One armed-fighter slot — its combatant, the weapon it's firing, and the game time at
/// which it next gets to fire.
#[derive(Debug, Clone, Copy, PartialEq, Eq, Structural)]
pub struct Fighter {
    pub combatant: Combatant,
    pub weapon: Weapon,
    /// Absolute time of next shot; infinity for a weapon that never fires.
    pub next_shot_at: Scalar,
}

impl Fighter {
    /// A fighter at the start of a fight: the first shot comes after one period, which is
    /// what the fire rate comes to; a weapon that does not fire never gets to it.
    pub fn new(combatant: Combatant, weapon: Weapon, period: Scalar) -> (f: Fighter)
        ensures
            f == (Fighter {
                combatant,
                weapon,
                next_shot_at: if !weapon.fire_rate.is_nan() && weapon.fire_rate.value() > 0 {
                    period
                } else {
                    Scalar { bits: INFINITY }
                },
            }),
    {
        Fighter { combatant, weapon, next_shot_at: shot_period(&weapon.fire_rate, period) }
    }
}

#[derive(Debug, Clone, Copy, PartialEq, Eq, Structural)]
pub struct FightState {
    pub time: Scalar,
    pub player: Fighter,
    pub enemy: Fighter,
}

impl FightState {
    pub fn new(player: Fighter, enemy: Fighter) -> (s: FightState)
        ensures
            s == (FightState { time: Scalar { bits: 0 }, player, enemy }),
    {
        FightState { time: Scalar { bits: 0 }, player, enemy }
    }
}

#[derive(Debug, Clone, Copy, PartialEq, Eq, Structural)]
pub enum FightOutcome {
    PlayerWins,
    PlayerLoses,
    Timeout,
}

/// What a fight does next.
#[derive(Debug, Clone, Copy, PartialEq, Eq, Structural)]
pub enum FightAction {
    /// Move the time on by one step.
    Advance,
    /// The player fires: roll the shot, apply it to the enemy and set the player's next
    /// shot one period later.
    PlayerFires,
    /// The enemy fires.
    EnemyFires,
    /// The fight is over.
    End(FightOutcome),
}

/// What a fight did last.
#[derive(Debug, Clone, Copy, PartialEq, Eq, Structural)]
pub enum FightPhase {
    /// A step is complete, or none was taken yet.
    StepDone,
    /// The time was moved on.
    Advanced,
    /// The player fired.
    PlayerFired,
    /// The enemy fired.
    EnemyFired,
}

impl Fighter {
    /// Whether the fighter gets to fire at the given time.
    pub open spec fn is_due(self, time: Scalar) -> bool {
        !self.next_shot_at.is_nan() && !time.is_nan() && self.next_shot_at.value() <= time.value()
    }
}

/// How a fight goes on when a step is complete: until the time runs out.
pub open spec fn next_step(state: FightState, max_time: Scalar) -> FightAction {
    if state.time.less_than(max_time) {
        FightAction::Advance
    } else {
        FightAction::End(FightOutcome::Timeout)
    }
}

/// How a fight goes on when the player's turn is over.
pub open spec fn enemy_turn(state: FightState, max_time: Scalar) -> FightAction {
    if state.enemy.is_due(state.time) {
        FightAction::EnemyFires
    } else {
        next_step(state, max_time)
    }
}

/// What a fight does next: in each step the player fires first, if due, then the enemy,
/// if due and still alive; it ends as soon as one of them is dead, or when the time has
/// run out.
pub open spec fn fight_action(
    phase: FightPhase,
    state: FightState,
    max_time: Scalar,
) -> FightAction {
    match phase {
        FightPhase::StepDone => next_step(state, max_time),
        FightPhase::Advanced => if state.player.is_due(state.time) {
            FightAction::PlayerFires
        } else {
            enemy_turn(state, max_time)
        },
        FightPhase::PlayerFired => if state.enemy.combatant.is_dead() {
            FightAction::End(FightOutcome::PlayerWins)
        } else {
            enemy_turn(state, max_time)
        },
        FightPhase::EnemyFired => if state.player.combatant.is_dead() {
            FightAction::End(FightOutcome::PlayerLoses)
        } else {
            next_step(state, max_time)
        },
    }
}

/// The phase of a fight after an action.
pub open spec fn phase_after(action: FightAction) -> FightPhase {
    match action {
        FightAction::Advance => FightPhase::Advanced,
        FightAction::PlayerFires => FightPhase::PlayerFired,
        FightAction::EnemyFires => FightPhase::EnemyFired,
        FightAction::End(_) => FightPhase::StepDone,
    }
}

fn is_due(fighter: &Fighter, time: &Scalar) -> (r: bool)
    ensures
        r == fighter.is_due(*time),
{
    fighter.next_shot_at.le(time)
}

fn step_on(state: &FightState, max_time: &Scalar) -> (a: FightAction)
    ensures
        a == next_step(*state, *max_time),
{
    if state.time.lt(max_time) {
        FightAction::Advance
    } else {
        FightAction::End(FightOutcome::Timeout)
    }
}

/// Decides what a tick-based fight does next, given what it did last. The caller performs
/// the action on the state and asks again, until the fight is over. Player fires first on
/// ties.
pub fn simulate_fight(phase: FightPhase, state: &FightState, max_time: &Scalar) -> (r: (
    FightAction,
    FightPhase,
))
    ensures
        r.0 == fight_action(phase, *state, *max_time),
        r.1 == phase_after(r.0),
{
    let action = match phase {
        FightPhase::StepDone => step_on(state, max_time),
        FightPhase::Advanced => {
            if is_due(&state.player, &state.time) {
                FightAction::PlayerFires
            } else if is_due(&state.enemy, &state.time) {
                FightAction::EnemyFires
            } else {
                step_on(state, max_time)
            }
        },
        FightPhase::PlayerFired => {
            if state.enemy.combatant.dead() {
                FightAction::End(FightOutcome::PlayerWins)
            } else if is_due(&state.enemy, &state.time) {
                FightAction::EnemyFires
            } else {
                step_on(state, max_time)
            }
        },
        FightPhase::EnemyFired => {
            if state.player.combatant.dead() {
                FightAction::End(FightOutcome::PlayerLoses)
            } else {
                step_on(state, max_time)
            }
        },
    };
    let next = match action {
        FightAction::Advance => FightPhase::Advanced,
        FightAction::PlayerFires => FightPhase::PlayerFired,
        FightAction::EnemyFires => FightPhase::EnemyFired,
        FightAction::End(_) => FightPhase::StepDone,
    };
    (action, next)
}

/// Where both fighters are due, the player fires first; and an enemy that this shot kills
/// does not fire any more.
pub proof fn law_player_fires_first(state: FightState, after: FightState, max_time: Scalar)
    requires
        state.player.is_due(state.time),
        state.enemy.is_due(state.time),
    ensures
        fight_action(FightPhase::Advanced, state, max_time) == FightAction::PlayerFires,
        after.enemy.combatant.is_dead() ==> fight_action(FightPhase::PlayerFired, after, max_time)
            == FightAction::End(FightOutcome::PlayerWins),
{
}

/// A fight is only won when the enemy is dead, only lost when the player is, and otherwise
/// ends only when its time is up.
pub proof fn law_fight_ends_for_a_reason(phase: FightPhase, state: FightState, max_time: Scalar)
    ensures
        fight_action(phase, state, max_time) matches FightAction::End(outcome) ==> match outcome {
            FightOutcome::PlayerWins => state.enemy.combatant.is_dead(),
            FightOutcome::PlayerLoses => state.player.combatant.is_dead(),
            FightOutcome::Timeout => !state.time.less_than(max_time),
        },
{
}

/// A target without evasion never dodges, and a weapon without a crit chance never crits;
/// neither is drawn for. A target without armor takes the full damage: the weapon's own,
/// or that of a critical hit.
pub proof fn law_no_defense_no_escape(g: RngState, weapon: Weapon, target: Combatant, a: Aimed)
    ensures
        is_spent(target.evasion) ==> a.roll(g, weapon, target).0 != ShotRoll::Dodged,
        is_spent(weapon.crit_chance) ==> a.roll(g, weapon, target).0 != (ShotRoll::Hit {
            was_crit: true,
        }),
        is_spent(target.evasion) && is_spent(weapon.crit_chance) ==> a.roll(g, weapon, target).1
            == g,
        is_spent(target.armor) ==> a.dealt(weapon, target, false) == weapon.damage_per_shot,
        is_spent(target.armor) ==> a.dealt(weapon, target, true) == a.crit_damage,
{
    crate::scalar::lemma_magnitude_order(0, 0);
}

/// The same generator, weapon, target and arithmetic give the same result and leave the
/// same target and generator.
pub proof fn law_shots_are_deterministic(
    g: RngState,
    h: RngState,
    weapon: Weapon,
    a: Aimed,
    b: Aimed,
    s: Combatant,
    t: Combatant,
)
    requires
        g == h,
        a == b,
        s == t,
    ensures
        ({
            let (first, g1) = a.roll(g, weapon, s);
            let (second, h1) = b.roll(h, weapon, t);
            &&& a.result(weapon, s, first) == b.result(weapon, t, second)
            &&& a.on(s, first) == b.on(t, second)
            &&& g1 == h1
        }),
{
}

/// No shot gives life, none takes more than there is, and a dodged one takes nothing;
/// nothing but the life changes.
pub proof fn law_shots_only_hurt(a: Aimed, roll: ShotRoll, target: Combatant)
    requires
        !target.current_life.is_nan(),
        0 <= target.current_life.value(),
        !a.plain.left.is_nan() && a.plain.left.value() <= target.current_life.value(),
        !a.crit.left.is_nan() && a.crit.left.value() <= target.current_life.value(),
    ensures
        0 <= a.on(target, roll).current_life.value() <= target.current_life.value(),
        roll == ShotRoll::Dodged ==> a.on(target, roll) == target,
        a.on(target, roll) == (Combatant {
            current_life: a.on(target, roll).current_life,
            ..target
        }),
{
    crate::scalar::lemma_magnitude_order(0, 0);
}

/// A hit takes its own arithmetic, whatever armor the target has: a critical hit leaves
/// what the critical blow leaves, and deals what that blow comes to where the armor absorbs
/// something; a plain hit takes the plain blow. Where nothing is absorbed, all of the
/// damage is dealt. Life stops at zero, and nothing else of the target changes.
pub proof fn law_hits_take_their_own_arithmetic(
    a: Aimed,
    weapon: Weapon,
    target: Combatant,
    was_crit: bool,
)
    ensures
        ({
            let (hit, blow) = if was_crit {
                (a.crit_damage, a.crit)
            } else {
                (weapon.damage_per_shot, a.plain)
            };
            let after = a.on(target, ShotRoll::Hit { was_crit });
            let result = a.result(weapon, target, ShotRoll::Hit { was_crit });
            let armored = target.armor.is_nan() || target.armor.value() > 0;
            let hurts = hit.is_nan() || hit.value() > 0;
            let absorbs = blow.ratio.is_nan() || blow.ratio.value() > 0;
            &&& !blow.left.is_nan() && blow.left.value() >= 0 ==> after.current_life == blow.left
            &&& blow.left.is_nan() || blow.left.value() < 0 ==> after.current_life.bits == 0
            &&& after.max_life == target.max_life
            &&& after.armor == target.armor
            &&& after.evasion == target.evasion
            &&& armored && hurts && absorbs ==> result == (HitResult::Hit {
                damage_dealt: blow.mitigated,
                was_crit,
            })
            &&& !armored || !hurts ==> result == (HitResult::Hit { damage_dealt: hit, was_crit })
        }),
        a.on(target, ShotRoll::Dodged) == target,
        a.result(weapon, target, ShotRoll::Dodged) == HitResult::Dodged,
{
    crate::scalar::lemma_magnitude_order(0, 0);
    crate::scalar::lemma_magnitude_order(0, MAX_MITIGATION as int);
}

/// How much of a shot is left to chance. A target that has any evasion dodges if the first
/// draw of 24 bits falls below its chance: the ratio of its evasion, or a half if that is
/// less. The shot is critical if the next draw falls below the weapon's chance. What has no
/// chance is not drawn for.
pub proof fn law_shots_follow_the_draws(g: RngState, weapon: Weapon, target: Combatant, a: Aimed)
    ensures
        ({
            let half = Scalar { bits: 0x3f00_0000 };
            let chance = if a.ratio.is_nan() || a.ratio.value() > half.value() {
                half
            } else {
                a.ratio
            };
            let evades = (target.evasion.is_nan() || target.evasion.value() > 0) && chance.value()
                > 0;
            let crits = !weapon.crit_chance.is_nan() && weapon.crit_chance.value() > 0;
            let first = answer_word32(g.seed, g.past) >> 8;
            let past = if evades {
                g.past.push(Draw::Word32)
            } else {
                g.past
            };
            let second = answer_word32(g.seed, past) >> 8;
            let (roll, after) = a.roll(g, weapon, target);
            &&& roll == ShotRoll::Dodged <==> evades && first * pow2(125) < chance.value()
            &&& roll != ShotRoll::Dodged ==> roll == (ShotRoll::Hit {
                was_crit: crits && second * pow2(125) < weapon.crit_chance.value(),
            })
            &&& after.seed == g.seed
            &&& after.past == if roll != ShotRoll::Dodged && crits {
                past.push(Draw::Word32)
            } else {
                past
            }
        }),
{
    crate::scalar::lemma_magnitude_order(0, 0);
    crate::scalar::lemma_magnitude_order(0, MAX_DODGE as int);
}

/// What defenses do: nothing where there are none; below their caps of a half and of 85
/// percent they are what the ratio says, and never more than the cap.
pub proof fn law_defenses_follow_the_ratio(evasion: Scalar, armor: Scalar, hit: Scalar, ratio: Scalar)
    ensures
        ({
            let most_dodged = Scalar { bits: 0x3f00_0000 };
            let most_absorbed = Scalar { bits: 0x3f59_999a };
            &&& !evasion.is_nan() && evasion.value() <= 0 ==> dodge_of(evasion, ratio).bits == 0
            &&& evasion.is_nan() || evasion.value() > 0 ==> dodge_of(evasion, ratio) == if !ratio.is_nan()
                && ratio.value() <= most_dodged.value() {
                ratio
            } else {
                most_dodged
            }
            &&& (!armor.is_nan() && armor.value() <= 0) || (!hit.is_nan() && hit.value() <= 0)
                ==> mitigation_of(armor, hit, ratio).bits == 0
            &&& (armor.is_nan() || armor.value() > 0) && (hit.is_nan() || hit.value() > 0)
                ==> mitigation_of(armor, hit, ratio) == if !ratio.is_nan() && ratio.value()
                <= most_absorbed.value() {
                ratio
            } else {
                most_absorbed
            }
        }),
{
}

/// A stat has the value of the first entry of its name, and is zero where there is none.
pub proof fn law_first_entry_counts(stats: Seq<StatValue>, key: Seq<char>, i: int)
    requires
        forall|j: int| 0 <= j < i ==> (#[trigger] stats[j]).stat@ != key,
        0 <= i <= stats.len(),
        i < stats.len() ==> stats[i].stat@ == key,
    ensures
        stat_of(stats, key) == if i < stats.len() {
            stats[i].value
        } else {
            Scalar { bits: 0 }
        },
    decreases stats.len(),
{
    if i > 0 {
        let rest = stats.drop_first();
        assert(stats[0].stat@ != key);
        assert forall|j: int| 0 <= j < i - 1 implies (#[trigger] rest[j]).stat@ != key by {
            assert(rest[j] == stats[j + 1]);
        }
        law_first_entry_counts(rest, key, i - 1);
    }
}

/// A chance is kept between nothing and one, and is left alone there.
pub proof fn law_chances_are_clamped(x: Scalar)
    requires
        !x.is_nan(),
    ensures
        ({
            let one = Scalar { bits: 0x3f80_0000 };
            &&& 0 <= clamped(x).value() <= one.value()
            &&& 0 <= x.value() <= one.value() ==> clamped(x) == x
            &&& x.value() < 0 ==> clamped(x).bits == 0
            &&& x.value() > one.value() ==> clamped(x) == one
        }),
{
    crate::scalar::lemma_magnitude_order(0, 0);
    crate::scalar::lemma_magnitude_order(0, ONE_BITS as int);
}

/// How the turns of a fight go. Once the time was moved on, the player fires if their shot
/// is due by then; the enemy does if its own is due and it is the enemy's turn: the player
/// was not due, or has fired and the enemy lives. When both had their turn and the loser of
/// the last shot lives, the time is moved on again while it lasts.
pub proof fn law_fights_take_turns(phase: FightPhase, state: FightState, max_time: Scalar)
    ensures
        ({
            let reached = |at: Scalar| !at.is_nan() && !state.time.is_nan() && at.value()
                <= state.time.value();
            let gone = |life: Scalar| !life.is_nan() && life.value() <= 0;
            let lasts = !state.time.is_nan() && !max_time.is_nan() && state.time.value()
                < max_time.value();
            let player_due = reached(state.player.next_shot_at);
            let enemy_due = reached(state.enemy.next_shot_at);
            let enemy_gone = gone(state.enemy.combatant.current_life);
            let player_gone = gone(state.player.combatant.current_life);
            let enemys_turn = (phase == FightPhase::Advanced && !player_due) || (phase
                == FightPhase::PlayerFired && !enemy_gone);
            let step_over = phase == FightPhase::StepDone || (phase == FightPhase::EnemyFired
                && !player_gone) || (enemys_turn && !enemy_due);
            let action = fight_action(phase, state, max_time);
            &&& action == FightAction::PlayerFires <==> phase == FightPhase::Advanced && player_due
            &&& action == FightAction::EnemyFires <==> enemys_turn && enemy_due
            &&& action == FightAction::End(FightOutcome::PlayerWins) <==> phase
                == FightPhase::PlayerFired && enemy_gone
            &&& action == FightAction::End(FightOutcome::PlayerLoses) <==> phase
                == FightPhase::EnemyFired && player_gone
            &&& action == FightAction::Advance <==> step_over && lasts
            &&& action == FightAction::End(FightOutcome::Timeout) <==> step_over && !lasts
        }),
        phase_after(FightAction::Advance) == FightPhase::Advanced,
        phase_after(FightAction::PlayerFires) == FightPhase::PlayerFired,
        phase_after(FightAction::EnemyFires) == FightPhase::EnemyFired,
{
}

} // verus!
