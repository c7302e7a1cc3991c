//! Attaching, and enemies as combatants.

use bigbox::rules::attach::{find_attachment, try_attach, AttachError};
use bigbox::rules::enemy::Enemy;
use bigbox::rules::item::{Attachment, AttachmentModifier, BaseItem, ItemInstance, Rarity};
use bigbox::rules::stats::ModifierKind;
use bigbox::scalar::Scalar;

fn f(x: Scalar) -> f32 {
    f32::from_bits(x.bits)
}

fn s(x: f32) -> Scalar {
    Scalar { bits: x.to_bits() }
}

fn pistol() -> BaseItem {
    BaseItem {
        id: "pistol".into(),
        name: "Pistol".into(),
        category: "rapid_fire".into(),
        slot: "weapon".into(),
        intrinsic_stats: vec![],
        attachment_slots: vec!["optic".into(), "magazine".into()],
    }
}

fn shotgun() -> BaseItem {
    BaseItem {
        id: "shotgun".into(),
        name: "Shotgun".into(),
        category: "heavy".into(),
        slot: "weapon".into(),
        intrinsic_stats: vec![],
        attachment_slots: vec!["optic".into(), "barrel".into()],
    }
}

fn empty_item(base_id: &str) -> ItemInstance {
    ItemInstance {
        base: base_id.into(),
        ilvl: 60,
        rarity: Rarity::Basic,
        seed: 0,
        prefixes: vec![],
        suffixes: vec![],
        upgrade_tier: 0,
        attached: vec![],
    }
}

fn att(id: &str, slot: &str, allowed: &[&str]) -> Attachment {
    Attachment {
        id: id.into(),
        name: id.into(),
        rarity: Rarity::Common,
        slot_type: slot.into(),
        allowed_categories: allowed.iter().map(|s| (*s).into()).collect(),
        modifiers: vec![AttachmentModifier {
            stat: "crit_chance".into(),
            kind: ModifierKind::Flat,
            value: s(0.05),
        }],
    }
}

#[test]
fn happy_path_attaches() {
    let mut item = empty_item("pistol");
    let attachments = vec![att("red_dot", "optic", &["rapid_fire", "heavy"])];
    let result = try_attach(&mut item, &pistol(), "red_dot", &attachments);
    assert!(result.is_ok(), "{result:?}");
    assert_eq!(item.attached, vec!["red_dot".to_string()]);
}

#[test]
fn unknown_id_errors_without_mutating() {
    let mut item = empty_item("pistol");
    let result = try_attach(&mut item, &pistol(), "ghost", &[]);
    assert_eq!(
        result,
        Err(AttachError::UnknownAttachment("ghost".into()))
    );
    assert!(item.attached.is_empty());
}

#[test]
fn base_missing_slot_errors() {
    // Pistol has no barrel slot.
    let mut item = empty_item("pistol");
    let attachments = vec![att("long_barrel", "barrel", &["rapid_fire", "heavy"])];
    let result = try_attach(&mut item, &pistol(), "long_barrel", &attachments);
    assert_eq!(
        result,
        Err(AttachError::NoSuchSlot {
            slot_type: "barrel".into(),
            available: vec!["optic".into(), "magazine".into()],
        })
    );
    assert!(item.attached.is_empty());
}

#[test]
fn category_mismatch_errors() {
    // Shotgun has the optic slot but this attachment only allows rapid_fire.
    let mut item = empty_item("shotgun");
    let attachments = vec![att("rapid_only_sight", "optic", &["rapid_fire"])];
    let result = try_attach(&mut item, &shotgun(), "rapid_only_sight", &attachments);
    assert_eq!(
        result,
        Err(AttachError::CategoryNotAllowed {
            attachment_id: "rapid_only_sight".into(),
            category: "heavy".into(),
            allowed: vec!["rapid_fire".into()],
        })
    );
    assert!(item.attached.is_empty());
}

#[test]
fn slot_collision_errors() {
    let mut item = empty_item("pistol");
    let attachments = vec![
        att("red_dot", "optic", &["rapid_fire", "heavy"]),
        att("acog", "optic", &["rapid_fire", "heavy"]),
    ];
    try_attach(&mut item, &pistol(), "red_dot", &attachments).unwrap();
    let result = try_attach(&mut item, &pistol(), "acog", &attachments);
    assert_eq!(
        result,
        Err(AttachError::SlotAlreadyOccupied {
            slot_type: "optic".into(),
            current: "red_dot".into(),
        })
    );
    // The first attachment is still in place; the second wasn't pushed.
    assert_eq!(item.attached, vec!["red_dot".to_string()]);
}

#[test]
fn multiple_different_slots_compose() {
    let mut item = empty_item("pistol");
    let attachments = vec![
        att("red_dot", "optic", &["rapid_fire", "heavy"]),
        att("extended_mag", "magazine", &["rapid_fire"]),
    ];
    try_attach(&mut item, &pistol(), "red_dot", &attachments).unwrap();
    try_attach(&mut item, &pistol(), "extended_mag", &attachments).unwrap();
    assert_eq!(
        item.attached,
        vec!["red_dot".to_string(), "extended_mag".to_string()]
    );
}

#[test]
fn the_first_attachment_with_an_id_counts() {
    let attachments = vec![
        att("sight", "optic", &["rapid_fire"]),
        att("sight", "magazine", &["rapid_fire"]),
    ];
    assert_eq!(find_attachment(&attachments, "sight"), Some(0));
    assert_eq!(find_attachment(&attachments, "scope"), None);
}

#[test]
fn an_attachment_that_nothing_describes_occupies_no_slot() {
    let mut item = empty_item("pistol");
    item.attached.push("lost".into());
    let attachments = vec![att("red_dot", "optic", &["rapid_fire"])];
    assert!(try_attach(&mut item, &pistol(), "red_dot", &attachments).is_ok());
    assert_eq!(item.attached, vec!["lost".to_string(), "red_dot".to_string()]);
}

#[test]
fn as_combatant_seeds_current_life_at_max() {
    let e = Enemy {
        id: "test".into(),
        name: "Test".into(),
        category: "zombie".into(),
        ilvl: 1,
        max_life: s(120.0),
        armor: s(15.0),
        evasion: s(5.0),
        xp_value: 25,
    };
    let c = e.as_combatant();
    assert_eq!(f(c.max_life), 120.0);
    assert_eq!(f(c.current_life), 120.0);
    assert_eq!(f(c.armor), 15.0);
    assert_eq!(f(c.evasion), 5.0);
}
