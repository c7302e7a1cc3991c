//! Items: what bases, attachments and drops are made of.

use vstd::prelude::*;

use crate::rules::affix::AffixId;
use crate::rules::stats::{ModifierKind, StatId};
use crate::scalar::Scalar;

verus! {

#[derive(Debug, Clone, Copy, PartialEq, Eq, Structural)]
pub enum Rarity {
    Basic,
    Common,
    Rare,
    Epic,
    Legendary,
}

impl Rarity {
    /// The rarities from the most common to the least.
    pub const ALL: [Rarity; 5] = [
        Rarity::Basic,
        Rarity::Common,
        Rarity::Rare,
        Rarity::Epic,
        Rarity::Legendary,
    ];

    /// The rank of a rarity, from 0 for the most common.
    pub open spec fn rank(self) -> int {
        match self {
            Rarity::Basic => 0,
            Rarity::Common => 1,
            Rarity::Rare => 2,
            Rarity::Epic => 3,
            Rarity::Legendary => 4,
        }
    }

    /// Where the rarity stands in `ALL`.
    pub fn index(self) -> (i: usize)
        ensures
            i == self.rank(),
            i < 5,
    {
        match self {
            Rarity::Basic => 0,
            Rarity::Common => 1,
            Rarity::Rare => 2,
            Rarity::Epic => 3,
            Rarity::Legendary => 4,
        }
    }

    /// The worst affix tier that an item of this rarity rolls; tier 1 is the best.
    pub open spec fn floor(self) -> u8 {
        match self {
            Rarity::Legendary => 2,
            _ => u8::MAX,
        }
    }

    /// The worst affix tier that an item of this rarity rolls. Legendary items roll no
    /// tier below the second; the others roll any.
    pub fn tier_floor(self) -> (tier: u8)
        ensures
            tier == self.floor(),
    {
        match self {
            Rarity::Legendary => 2,
            _ => u8::MAX,
        }
    }

    /// The name of a rarity.
    pub open spec fn label(self) -> Seq<char> {
        match self {
            Rarity::Basic => "Basic"@,
            Rarity::Common => "Common"@,
            Rarity::Rare => "Rare"@,
            Rarity::Epic => "Epic"@,
            Rarity::Legendary => "Legendary"@,
        }
    }

    pub fn name(self) -> (s: &'static str)
        ensures
            s@ == self.label(),
    {
        match self {
            Rarity::Basic => "Basic",
            Rarity::Common => "Common",
            Rarity::Rare => "Rare",
            Rarity::Epic => "Epic",
            Rarity::Legendary => "Legendary",
        }
    }
}

#[derive(Debug)]
pub struct IntrinsicStat {
    pub stat: StatId,
    pub value: Scalar,
}

#[derive(Debug)]
pub struct BaseItem {
    pub id: String,
    pub name: String,
    pub category: String,
    pub slot: String,
    pub intrinsic_stats: Vec<IntrinsicStat>,
    /// The kinds of attachments that fit, one of each kind.
    pub attachment_slots: Vec<String>,
}

#[derive(Debug)]
pub struct AttachmentModifier {
    pub stat: StatId,
    pub kind: ModifierKind,
    pub value: Scalar,
}

#[derive(Debug)]
pub struct Attachment {
    pub id: String,
    pub name: String,
    pub rarity: Rarity,
    pub slot_type: String,
    pub allowed_categories: Vec<String>,
    pub modifiers: Vec<AttachmentModifier>,
}

/// Where a rolled value falls in its range: it is
/// `min + draw × 2^-24 × (max - min)`.
#[derive(Debug, Clone, Copy, PartialEq, Eq, Structural)]
pub struct Roll {
    pub min: Scalar,
    pub max: Scalar,
    pub draw: u32,
}

#[derive(Debug)]
pub struct RolledAffix {
    pub affix_id: AffixId,
    pub tier: u8,
    pub rolls: Vec<Roll>,
}

/// What actually dropped. Always carries its `seed` — enables compact saves,
/// debugging, shareable item codes, and deterministic replay.
#[derive(Debug)]
pub struct ItemInstance {
    pub base: String,
    pub ilvl: u32,
    pub rarity: Rarity,
    pub seed: u64,
    pub prefixes: Vec<RolledAffix>,
    pub suffixes: Vec<RolledAffix>,
    pub upgrade_tier: u8,
    /// The ids of the attachments on the item.
    pub attached: Vec<String>,
}

impl Roll {
    /// A roll that can fall on one value only.
    pub fn fixed(value: Scalar) -> (roll: Roll)
        ensures
            roll == (Roll { min: value, max: value, draw: 0 }),
    {
        Roll { min: value, max: value, draw: 0 }
    }
}

} // verus!
