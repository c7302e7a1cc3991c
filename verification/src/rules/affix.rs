//! Affix templates as authored in content files. An [`Affix`] is the template; a rolled
//! instance lives on an item as a `RolledAffix`.

use vstd::prelude::*;

use crate::rules::stats::{ModifierKind, StatId};
use crate::scalar::Scalar;

verus! {

pub type AffixId = String;

pub type GroupId = String;

#[derive(Debug, Clone, Copy, PartialEq, Eq, Structural)]
pub enum AffixSlot {
    Prefix,
    Suffix,
}

#[derive(Debug)]
pub struct Affix {
    pub id: AffixId,
    pub name_fragment: String,
    pub slot: AffixSlot,
    pub group: GroupId,
    pub tags: Vec<String>,
    pub allowed_categories: Vec<String>,
    pub tiers: Vec<AffixTier>,
}

#[derive(Debug)]
pub struct AffixTier {
    pub tier: u8,
    pub ilvl_required: u32,
    pub weight: u32,
    pub stats: Vec<StatRoll>,
}

#[derive(Debug)]
pub struct StatRoll {
    pub stat: StatId,
    pub kind: ModifierKind,
    pub min: Scalar,
    pub max: Scalar,
}

} // verus!
