//! Hits, defenses and whole fights.

use bigbox::rng::SeededRng;
use bigbox::rules::combat;
use bigbox::rules::combat::{
    Aimed, Blow, Combatant, FightAction, FightOutcome, FightPhase, FightState, Fighter, HitResult,
    StatValue, Weapon,
};
use bigbox::scalar::Scalar;

fn f(x: Scalar) -> f32 {
    f32::from_bits(x.bits)
}

fn s(x: f32) -> Scalar {
    Scalar { bits: x.to_bits() }
}

fn stat(name: &str, value: f32) -> StatValue {
    StatValue { stat: name.into(), value: s(value) }
}

fn weapon_from_stats(stats: &[StatValue]) -> Weapon {
    let damage: f32 = Weapon::damage_terms(stats).iter().map(|t| f(*t)).sum();
    let (one, bonus) = Weapon::crit_terms(stats);
    Weapon::from_stats(stats, s(damage), s(f(one) + f(bonus)))
}

fn armored(stats: &[StatValue], base_life: f32) -> Combatant {
    let (base, bonus) = Combatant::life_terms(stats, s(base_life));
    Combatant::from_armor_stats(stats, s(f(base) + f(bonus)))
}

fn dodge_chance(evasion: f32) -> f32 {
    f(combat::dodge_chance(&s(evasion), s(evasion / (evasion + 100.0))))
}

fn armor_mitigation(armor: f32, hit: f32) -> f32 {
    f(combat::armor_mitigation(&s(armor), &s(hit), s(armor / (armor + 10.0 * hit))))
}

fn expected_hit_damage(weapon: &Weapon, target: &Combatant) -> f32 {
    let hit = f(weapon.damage_per_shot)
        * (1.0 + f(weapon.crit_chance) * (f(weapon.crit_multiplier) - 1.0));
    let dodge = dodge_chance(f(target.evasion));
    let folded = hit * (1.0 - dodge) * (1.0 - armor_mitigation(f(target.armor), hit));
    f(combat::expected_hit_damage(weapon, s(folded)))
}

fn dps_against(weapon: &Weapon, target: &Combatant) -> f32 {
    expected_hit_damage(weapon, target) * f(weapon.fire_rate)
}

fn time_to_kill(weapon: &Weapon, target: &Combatant) -> Option<f32> {
    let dps = dps_against(weapon, target);
    combat::time_to_kill(&s(dps), s(f(target.current_life) / dps)).map(f)
}

fn period(weapon: &Weapon) -> f32 {
    f(combat::shot_period(&weapon.fire_rate, s(1.0 / f(weapon.fire_rate))))
}

fn blow(hit: f32, target: &Combatant) -> Blow {
    let armor = f(target.armor);
    let mitigated = hit * (1.0 - armor_mitigation(armor, hit));
    Blow {
        ratio: s(armor / (armor + 10.0 * hit)),
        mitigated: s(mitigated),
        left: s(f(target.current_life) - mitigated),
    }
}

fn shoot(rng: &mut SeededRng, weapon: &Weapon, target: &mut Combatant) -> HitResult {
    let damage = f(weapon.damage_per_shot);
    let crit_damage = damage * f(weapon.crit_multiplier);
    let evasion = f(target.evasion);
    let aimed = Aimed {
        ratio: s(evasion / (evasion + 100.0)),
        crit_damage: s(crit_damage),
        plain: blow(damage, target),
        crit: blow(crit_damage, target),
    };
    combat::resolve_hit(rng, weapon, target, &aimed)
}

fn fighter(combatant: Combatant, weapon: Weapon) -> Fighter {
    Fighter::new(combatant, weapon, s(1.0 / f(weapon.fire_rate)))
}

fn fight(rng: &mut SeededRng, state: &mut FightState, dt: f32, max_time: f32) -> FightOutcome {
    let mut phase = FightPhase::StepDone;
    loop {
        let (action, next) = combat::simulate_fight(phase, state, &s(max_time));
        match action {
            FightAction::Advance => state.time = s(f(state.time) + dt),
            FightAction::PlayerFires => {
                let weapon = state.player.weapon;
                shoot(rng, &weapon, &mut state.enemy.combatant);
                state.player.next_shot_at = s(f(state.player.next_shot_at) + period(&weapon));
            }
            FightAction::EnemyFires => {
                let weapon = state.enemy.weapon;
                shoot(rng, &weapon, &mut state.player.combatant);
                state.enemy.next_shot_at = s(f(state.enemy.next_shot_at) + period(&weapon));
            }
            FightAction::End(outcome) => return outcome,
        }
        phase = next;
    }
}

fn approx(a: f32, b: f32) -> bool {
    (a - b).abs() < 1e-4
}

fn naked(life: f32) -> Combatant {
    Combatant::dummy(s(life))
}

fn plain_weapon(damage: f32, rate: f32) -> Weapon {
    Weapon {
        damage_per_shot: s(damage),
        fire_rate: s(rate),
        crit_chance: s(0.0),
        crit_multiplier: s(1.0),
    }
}

#[test]
fn naked_target_takes_full_damage() {
    let w = plain_weapon(10.0, 1.0);
    let t = naked(100.0);
    assert_eq!(expected_hit_damage(&w, &t), 10.0);
    assert_eq!(dps_against(&w, &t), 10.0);
    assert_eq!(time_to_kill(&w, &t), Some(10.0));
}

#[test]
fn armor_reduces_damage_with_diminishing_returns() {
    // armor / (armor + 10 × hit_damage) — at armor 100, hit 10: 100/200 = 50%
    let mit_100 = armor_mitigation(100.0, 10.0);
    let mit_300 = armor_mitigation(300.0, 10.0);
    let mit_900 = armor_mitigation(900.0, 10.0);
    assert!(approx(mit_100, 0.50));
    assert!(approx(mit_300, 0.75));
    assert!(approx(mit_900, 0.90_f32.min(0.85))); // capped
    // 3× armor doesn't give 3× mitigation — diminishing returns hold.
    assert!(mit_300 < 3.0 * mit_100);
}

#[test]
fn armor_mitigation_caps_at_85_percent() {
    assert!(approx(armor_mitigation(10_000.0, 1.0), 0.85));
    assert!(approx(armor_mitigation(1_000_000.0, 1.0), 0.85));
}

#[test]
fn big_hits_punch_through_armor() {
    // Same armor: a tiny hit gets mitigated more than a huge hit.
    let small_hit = armor_mitigation(100.0, 1.0); // 100/(100+10) ≈ 0.909, capped 0.85
    let huge_hit = armor_mitigation(100.0, 100.0); // 100/1100 ≈ 0.0909
    assert!(small_hit > huge_hit);
}

#[test]
fn evasion_caps_at_50_percent() {
    assert!(approx(dodge_chance(0.0), 0.0));
    assert!(approx(dodge_chance(100.0), 0.50));
    assert!(approx(dodge_chance(10_000.0), 0.50));
}

#[test]
fn crit_increases_expected_damage() {
    let no_crit = plain_weapon(10.0, 1.0);
    let with_crit = Weapon {
        crit_chance: s(0.5),
        crit_multiplier: s(2.0),
        ..no_crit
    };
    let t = naked(100.0);
    // crit factor = 1 + 0.5 × (2.0 - 1.0) = 1.5
    assert!(approx(expected_hit_damage(&with_crit, &t), 15.0));
    assert!(expected_hit_damage(&with_crit, &t) > expected_hit_damage(&no_crit, &t));
}

#[test]
fn better_weapon_kills_faster() {
    let weak = plain_weapon(10.0, 1.0);
    let strong = plain_weapon(50.0, 1.0);
    let t = naked(100.0);
    assert_eq!(time_to_kill(&weak, &t), Some(10.0));
    assert_eq!(time_to_kill(&strong, &t), Some(2.0));
}

#[test]
fn weapon_from_stats_sums_damage_types() {
    let mut stats = Vec::new();
    stats.push(stat("weapon_damage", 12.0));
    stats.push(stat("bullet_damage", 8.0));
    stats.push(stat("incendiary_damage", 5.0));
    stats.push(stat("fire_rate", 4.0));
    stats.push(stat("crit_chance", 0.20));
    stats.push(stat("crit_damage", 0.50));
    let w = weapon_from_stats(&stats);
    assert!(approx(f(w.damage_per_shot), 25.0));
    assert!(approx(f(w.fire_rate), 4.0));
    assert!(approx(f(w.crit_chance), 0.20));
    assert!(approx(f(w.crit_multiplier), 1.50));
}

#[test]
fn combatant_from_armor_stats() {
    let mut stats = Vec::new();
    stats.push(stat("life", 60.0));
    stats.push(stat("armor", 40.0));
    stats.push(stat("evasion", 15.0));
    let c = armored(&stats, 100.0);
    assert!(approx(f(c.max_life), 160.0));
    assert!(approx(f(c.current_life), 160.0));
    assert!(approx(f(c.armor), 40.0));
    assert!(approx(f(c.evasion), 15.0));
}

// ----- stochastic / fight loop tests -----


fn pacifist_dummy(life: f32) -> Fighter {
    fighter(naked(life), plain_weapon(0.0, 0.0))
}

#[test]
fn resolve_hit_deterministic_with_seed() {
    let mut a = SeededRng::seed_from_u64(42);
    let mut b = SeededRng::seed_from_u64(42);
    let w = Weapon {
        damage_per_shot: s(20.0),
        fire_rate: s(1.0),
        crit_chance: s(0.5),
        crit_multiplier: s(2.0),
    };
    let mut t1 = naked(1000.0);
    let mut t2 = naked(1000.0);
    for _ in 0..20 {
        let r1 = shoot(&mut a, &w, &mut t1);
        let r2 = shoot(&mut b, &w, &mut t2);
        assert_eq!(r1, r2);
    }
    assert_eq!(f(t1.current_life), f(t2.current_life));
}

#[test]
fn dodge_and_crit_observable_over_many_rolls() {
    let mut rng = SeededRng::seed_from_u64(1);
    let w = Weapon {
        damage_per_shot: s(10.0),
        fire_rate: s(1.0),
        crit_chance: s(0.5),
        crit_multiplier: s(2.0),
    };
    let mut target = Combatant {
        max_life: s(1e9),
        current_life: s(1e9),
        armor: s(0.0),
        evasion: s(100.0), // 50% dodge cap
    };
    let mut dodged = 0;
    let mut crits = 0;
    let trials = 10_000;
    for _ in 0..trials {
        match shoot(&mut rng, &w, &mut target) {
            HitResult::Dodged => dodged += 1,
            HitResult::Hit { was_crit, .. } => {
                if was_crit {
                    crits += 1;
                }
            }
        }
    }
    let dodge_rate = dodged as f32 / trials as f32;
    // ~50% dodge; among non-dodges, ~50% crit (so ~25% of trials crit).
    let crit_rate = crits as f32 / trials as f32;
    assert!((dodge_rate - 0.50).abs() < 0.02, "dodge_rate = {dodge_rate}");
    assert!((crit_rate - 0.25).abs() < 0.02, "crit_rate = {crit_rate}");
}

#[test]
fn fight_strong_player_wins() {
    let mut rng = SeededRng::seed_from_u64(7);
    let mut state = FightState::new(
        fighter(naked(100.0), plain_weapon(50.0, 4.0)), // 200 DPS
        fighter(naked(50.0), plain_weapon(1.0, 1.0)),   // 1 DPS
    );
    let outcome = fight(&mut rng, &mut state, 1.0 / 60.0, 10.0);
    assert_eq!(outcome, FightOutcome::PlayerWins);
    assert!(f(state.enemy.combatant.current_life) <= 0.0);
    assert!(f(state.player.combatant.current_life) > 0.0);
}

#[test]
fn fight_overmatched_player_loses() {
    let mut rng = SeededRng::seed_from_u64(7);
    let mut state = FightState::new(
        fighter(naked(20.0), plain_weapon(1.0, 1.0)),    // 1 DPS, 20 HP
        fighter(naked(1000.0), plain_weapon(50.0, 4.0)), // 200 DPS
    );
    let outcome = fight(&mut rng, &mut state, 1.0 / 60.0, 30.0);
    assert_eq!(outcome, FightOutcome::PlayerLoses);
}

#[test]
fn fight_timeout_when_neither_can_kill() {
    let mut rng = SeededRng::seed_from_u64(7);
    // Player has weapon but enemy has infinite life; player can never finish.
    let mut state = FightState::new(
        fighter(naked(100.0), plain_weapon(1.0, 1.0)),
        pacifist_dummy(1e9),
    );
    let outcome = fight(&mut rng, &mut state, 1.0 / 60.0, 2.0);
    assert_eq!(outcome, FightOutcome::Timeout);
    // Time advanced to (approx) max_time.
    assert!(f(state.time) >= 2.0);
}

#[test]
fn fight_outcome_deterministic_with_seed() {
    // Two independent runs with the same seed produce the same outcome
    // and the same final state.
    let setup = || {
        FightState::new(
            fighter(naked(100.0), plain_weapon(8.0, 2.0)),
            fighter(naked(100.0), plain_weapon(5.0, 1.5)),
        )
    };
    let mut a = SeededRng::seed_from_u64(123);
    let mut b = SeededRng::seed_from_u64(123);
    let mut sa = setup();
    let mut sb = setup();
    let oa = fight(&mut a, &mut sa, 1.0 / 60.0, 60.0);
    let ob = fight(&mut b, &mut sb, 1.0 / 60.0, 60.0);
    assert_eq!(oa, ob);
    assert!(approx(f(sa.time), f(sb.time)));
    assert!(approx(
        f(sa.player.combatant.current_life),
        f(sb.player.combatant.current_life)
    ));
    assert!(approx(
        f(sa.enemy.combatant.current_life),
        f(sb.enemy.combatant.current_life)
    ));
}

#[test]
fn stochastic_mean_ttk_tracks_expected() {
    // Over many seeds, average TTK should converge to life / expected_dps.
    // Use crit so individual fights vary, mean should still land close.
    let weapon = Weapon {
        damage_per_shot: s(10.0),
        fire_rate: s(4.0),
        crit_chance: s(0.30),
        crit_multiplier: s(2.0),
    };
    // expected_dps = 10 × (1 + 0.3) × 4 = 52
    // expected TTK = 200 / 52 ≈ 3.846
    let trials = 200;
    let mut total = 0.0;
    for seed in 0..trials {
        let mut rng = SeededRng::seed_from_u64(seed);
        // Player has effectively infinite life and the weapon; the pacifist
        // enemy has the 200 HP we want to deplete.
        let mut state = FightState::new(
            fighter(naked(1e9), weapon),
            pacifist_dummy(200.0),
        );
        let outcome = fight(&mut rng, &mut state, 1.0 / 240.0, 60.0);
        assert_eq!(outcome, FightOutcome::PlayerWins);
        total += f(state.time);
    }
    let mean = total / trials as f32;
    assert!((mean - 3.846).abs() < 0.30, "mean TTK = {mean}, expected ~3.85");
}

#[test]
fn the_player_fires_before_the_enemy() {
    // Either shot would kill: whoever fires first wins.
    let mut rng = SeededRng::seed_from_u64(1);
    let mut state = FightState::new(
        fighter(naked(1.0), plain_weapon(10.0, 1.0)),
        fighter(naked(1.0), plain_weapon(10.0, 1.0)),
    );
    let outcome = fight(&mut rng, &mut state, 0.5, 10.0);
    assert_eq!(outcome, FightOutcome::PlayerWins);
    assert_eq!(f(state.player.combatant.current_life), 1.0);
    assert_eq!(f(state.time), 1.0);
}

#[test]
fn no_chance_takes_no_draw() {
    // A weapon that cannot crit on a target that cannot dodge leaves the generator alone.
    let mut rng = SeededRng::seed_from_u64(5);
    let mut untouched = SeededRng::seed_from_u64(5);
    let mut target = naked(100.0);
    for _ in 0..5 {
        let r = shoot(&mut rng, &plain_weapon(2.0, 1.0), &mut target);
        assert_eq!(r, HitResult::Hit { damage_dealt: s(2.0), was_crit: false });
    }
    assert_eq!(f(target.current_life), 90.0);
    let w = Weapon { crit_chance: s(0.5), ..plain_weapon(2.0, 1.0) };
    for _ in 0..20 {
        let a = shoot(&mut rng, &w, &mut naked(100.0));
        let b = shoot(&mut untouched, &w, &mut naked(100.0));
        assert_eq!(a, b);
    }
}

#[test]
fn a_sure_crit_always_comes() {
    let mut rng = SeededRng::seed_from_u64(2);
    let w = Weapon { crit_chance: s(1.0), crit_multiplier: s(3.0), ..plain_weapon(2.0, 1.0) };
    for _ in 0..50 {
        let r = shoot(&mut rng, &w, &mut naked(100.0));
        assert_eq!(r, HitResult::Hit { damage_dealt: s(6.0), was_crit: true });
    }
}

#[test]
fn without_defenses_every_shot_lands_in_full() {
    let mut rng = SeededRng::seed_from_u64(4);
    let w = Weapon { crit_chance: s(0.5), crit_multiplier: s(3.0), ..plain_weapon(2.0, 1.0) };
    // Whatever the ratios claim: without evasion nobody dodges, without armor nothing is
    // absorbed.
    let claimed = Blow { ratio: s(0.7), mitigated: s(0.6), left: s(1.0) };
    let aimed = Aimed { ratio: s(0.9), crit_damage: s(6.0), plain: claimed, crit: claimed };
    let mut seen = [false; 2];
    for _ in 0..200 {
        let mut target = naked(100.0);
        match combat::resolve_hit(&mut rng, &w, &mut target, &aimed) {
            HitResult::Dodged => panic!("dodged without evasion"),
            HitResult::Hit { damage_dealt, was_crit } => {
                assert_eq!(f(damage_dealt), if was_crit { 6.0 } else { 2.0 });
                seen[was_crit as usize] = true;
            }
        }
        assert_eq!(f(target.current_life), 1.0);
    }
    assert_eq!(seen, [true, true]);
}

#[test]
fn armor_takes_its_share_of_a_hit() {
    let mut rng = SeededRng::seed_from_u64(4);
    let mut target = Combatant { armor: s(300.0), ..naked(100.0) };
    // 300 / (300 + 10 × 10) = 75%.
    let r = shoot(&mut rng, &plain_weapon(10.0, 1.0), &mut target);
    assert_eq!(r, HitResult::Hit { damage_dealt: s(2.5), was_crit: false });
    assert_eq!(target, Combatant { current_life: s(97.5), armor: s(300.0), ..naked(100.0) });
}

#[test]
fn evasion_dodges_at_most_half_of_the_shots() {
    let mut rng = SeededRng::seed_from_u64(6);
    let mut dodged: u32 = 0;
    for _ in 0..2000 {
        let mut target = Combatant { evasion: s(1e9), ..naked(100.0) };
        if shoot(&mut rng, &plain_weapon(10.0, 1.0), &mut target) == HitResult::Dodged {
            dodged += 1;
            assert_eq!(f(target.current_life), 100.0);
        }
    }
    assert!((900..1100).contains(&dodged), "{dodged}");
}

#[test]
fn life_never_falls_below_zero() {
    let mut c = naked(5.0);
    c.hurt(s(-3.0));
    assert_eq!(f(c.current_life), 0.0);
    assert!(c.dead());
    let mut c = naked(5.0);
    c.hurt(s(0.5));
    assert_eq!(f(c.current_life), 0.5);
    assert!(!c.dead());
}

#[test]
fn a_harmless_weapon_never_kills() {
    assert_eq!(time_to_kill(&plain_weapon(0.0, 4.0), &naked(10.0)), None);
    assert_eq!(time_to_kill(&plain_weapon(4.0, 0.0), &naked(10.0)), None);
    assert_eq!(expected_hit_damage(&plain_weapon(-4.0, 1.0), &naked(10.0)), 0.0);
    assert_eq!(period(&plain_weapon(1.0, 0.0)), f32::INFINITY);
    assert_eq!(period(&plain_weapon(1.0, 4.0)), 0.25);
}

#[test]
fn no_armor_or_no_hit_mitigates_nothing() {
    assert_eq!(armor_mitigation(0.0, 10.0), 0.0);
    assert_eq!(armor_mitigation(10.0, 0.0), 0.0);
    assert_eq!(armor_mitigation(-5.0, 10.0), 0.0);
    assert_eq!(dodge_chance(-5.0), 0.0);
}

#[test]
fn stats_that_are_missing_count_as_zero() {
    let stats = [stat("armor", 3.0), stat("life", 2.0)];
    assert_eq!(f(combat::get(&stats, "life")), 2.0);
    assert_eq!(f(combat::get(&stats, "evasion")), 0.0);
    let w = weapon_from_stats(&stats);
    assert_eq!(w, Weapon { damage_per_shot: s(0.0), fire_rate: s(0.0), crit_chance: s(0.0), crit_multiplier: s(1.0) });
}
