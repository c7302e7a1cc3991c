//! The three tiers of modifiers on one stat.

use bigbox::rules::item::Roll;
use bigbox::rules::stats::{aggregate, Modifier, ModifierKind, Terms};
use bigbox::scalar::Scalar;

fn f(x: Scalar) -> f32 {
    f32::from_bits(x.bits)
}

fn s(x: f32) -> Scalar {
    Scalar { bits: x.to_bits() }
}

fn roll_value(r: &Roll) -> f32 {
    f(r.min) + r.draw as f32 / 16_777_216.0 * (f(r.max) - f(r.min))
}

fn evaluate(terms: &Terms) -> f32 {
    let base: f32 = terms.base.iter().map(|v| f(*v)).sum();
    let flat: f32 = terms.flat.iter().map(roll_value).sum();
    let increased: f32 = terms.increased.iter().map(roll_value).sum();
    let more: f32 = terms.more.iter().map(|r| 1.0 + roll_value(r)).product();
    (base + flat) * (1.0 + increased) * more
}

fn total(base: f32, modifiers: &[Modifier]) -> f32 {
    evaluate(&aggregate(vec![s(base)], modifiers))
}

fn m(kind: ModifierKind, value: f32) -> Modifier {
    Modifier { kind, value: Roll::fixed(s(value)) }
}

#[test]
fn no_modifiers_returns_base() {
    assert_eq!(total(100.0, &[]), 100.0);
}

#[test]
fn flat_adds_to_base() {
    let mods = [m(ModifierKind::Flat, 20.0), m(ModifierKind::Flat, 5.0)];
    assert_eq!(total(100.0, &mods), 125.0);
}

#[test]
fn increased_modifiers_sum_into_one_bucket() {
    let mods = [
        m(ModifierKind::Increased, 0.10),
        m(ModifierKind::Increased, 0.15),
    ];
    // (100 + 0) * (1 + 0.25) * 1.0 = 125
    assert_eq!(total(100.0, &mods), 125.0);
}

#[test]
fn more_modifiers_are_fully_multiplicative() {
    let mods = [m(ModifierKind::More, 0.20), m(ModifierKind::More, 0.20)];
    // 100 * 1.0 * 1.2 * 1.2 = 144
    let result = total(100.0, &mods);
    assert!((result - 144.0).abs() < 1e-4, "got {result}");
}

#[test]
fn full_three_tier_formula() {
    let mods = [
        m(ModifierKind::Flat, 20.0),       // base+flat = 120
        m(ModifierKind::Increased, 0.10),  // ×1.25 = 150
        m(ModifierKind::Increased, 0.15),
        m(ModifierKind::More, 0.20),       // ×1.2 = 180
    ];
    let result = total(100.0, &mods);
    assert!((result - 180.0).abs() < 1e-4, "got {result}");
}

#[test]
fn two_mores_beat_one_equivalent_increased() {
    // 50% increased vs two 25% more: more should win
    let inc = total(100.0, &[m(ModifierKind::Increased, 0.50)]);
    let mor = total(
        100.0,
        &[m(ModifierKind::More, 0.25), m(ModifierKind::More, 0.25)],
    );
    assert_eq!(inc, 150.0);
    assert!(mor > inc, "two 25% more ({mor}) should exceed 50% increased ({inc})");
}

#[test]
fn terms_keep_their_order_and_their_tier() {
    let mods = [
        m(ModifierKind::More, 0.5),
        m(ModifierKind::Flat, 1.0),
        m(ModifierKind::More, 0.25),
        m(ModifierKind::Increased, 2.0),
    ];
    let terms = aggregate(vec![s(3.0), s(4.0)], &mods);
    assert_eq!(terms.base, vec![s(3.0), s(4.0)]);
    assert_eq!(terms.flat, vec![Roll::fixed(s(1.0))]);
    assert_eq!(terms.increased, vec![Roll::fixed(s(2.0))]);
    assert_eq!(terms.more, vec![Roll::fixed(s(0.5)), Roll::fixed(s(0.25))]);
}
