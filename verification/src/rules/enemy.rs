//! Enemy archetypes — authored content describing each enemy's combat profile.

use vstd::prelude::*;

use crate::rules::combat::Combatant;
use crate::scalar::Scalar;

verus! {

#[derive(Debug)]
pub struct Enemy {
    pub id: String,
    pub name: String,
    /// Loose tag for grouping (e.g. "zombie", "boss").
    pub category: String,
    /// Suggested encounter level; what an enemy drops is of this item level.
    pub ilvl: u32,
    pub max_life: Scalar,
    pub armor: Scalar,
    pub evasion: Scalar,
    /// XP awarded to the player on kill.
    pub xp_value: u32,
}

impl Enemy {
    /// The enemy as it enters a fight: at full life.
    pub open spec fn profile(self) -> Combatant {
        Combatant {
            max_life: self.max_life,
            current_life: self.max_life,
            armor: self.armor,
            evasion: self.evasion,
        }
    }

    pub fn as_combatant(&self) -> (c: Combatant)
        ensures
            c == self.profile(),
    {
        Combatant {
            max_life: self.max_life,
            current_life: self.max_life,
            armor: self.armor,
            evasion: self.evasion,
        }
    }
}

} // verus!
