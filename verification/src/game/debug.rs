//! Debug and tuning operations. They bypass the wave timer and caps to set up a controlled
//! scenario; normal gameplay input never reaches them.

use vstd::prelude::*;
use vstd::slice::slice_subrange;

use crate::game::entity::{Appraisal, Content, EnemyInstance};
use crate::game::rack::{
    base_of, has_base, is_stock, lemma_base_of, racked, stock_item, weapon_base,
};
use crate::game::world::World;
use crate::rules::item::{BaseItem, ItemInstance, Rarity};
use crate::rules::roll::{can_roll, is_rolled, roll_item, rolled_item};
use crate::scalar::Scalar;
use crate::text::same_text;

verus! {

/// The bases that a debug drop is rolled from: all of them, or the one that is forced. None
/// at all where the forced one is unknown.
pub open spec fn drop_pool(bases: Seq<BaseItem>, forced: Option<Seq<char>>) -> Seq<BaseItem> {
    match forced {
        None => bases,
        Some(id) => if has_base(bases, id) {
            seq![base_of(bases, id)]
        } else {
            Seq::empty()
        },
    }
}

/// The text of an optional id.
pub open spec fn text_of(id: Option<&str>) -> Option<Seq<char>> {
    match id {
        None => None,
        Some(s) => Some(s@),
    }
}

/// Every enemy awake.
pub open spec fn all_awake(enemies: Seq<EnemyInstance>) -> Seq<EnemyInstance> {
    enemies.map_values(|e: EnemyInstance| EnemyInstance { awake: true, ..e })
}

impl World {
    /// Remove every live enemy.
    pub fn debug_clear_enemies(&mut self)
        requires
            old(self).wf(),
        ensures
            final(self).wf(),
            final(self).enemies@.len() == 0,
            *final(self) == (World { enemies: final(self).enemies, ..*old(self) }),
    {
        self.enemies.clear();
    }

    /// Remove every uncollected ground drop.
    pub fn debug_clear_drops(&mut self)
        requires
            old(self).wf(),
        ensures
            final(self).wf(),
            final(self).drops@.len() == 0,
            *final(self) == (World { drops: final(self).drops, ..*old(self) }),
    {
        self.drops.clear();
    }

    /// Roll one loot item and drop it at `(x, y)`. `base_id = Some` forces that base (rolled
    /// against a one-item pool); `None` rolls a random base like a real kill. Each such drop
    /// is one event. Nothing drops if the forced base is unknown or there are no bases.
    pub fn debug_drop(
        &mut self,
        x: Scalar,
        y: Scalar,
        base_id: Option<&str>,
        rarity: Rarity,
        ilvl: u32,
        content: &Content,
    )
        requires
            old(self).wf(),
            old(self).event_seq < u64::MAX,
            old(self).next_entity_id < u64::MAX,
            can_roll(
                drop_pool(content.bases@, text_of(base_id)),
                content.affixes@,
                ilvl,
                rarity,
            ),
        ensures
            final(self).wf(),
            *final(self) == (World {
                drops: final(self).drops,
                event_seq: (old(self).event_seq + 1) as u64,
                next_entity_id: final(self).next_entity_id,
                ..*old(self)
            }),
            ({
                let pool = drop_pool(content.bases@, text_of(base_id));
                if pool.len() == 0 {
                    final(self).drops == old(self).drops && final(self).next_entity_id == old(
                        self,
                    ).next_entity_id
                } else {
                    let rolled = rolled_item(
                        old(self).event_rng(),
                        pool,
                        content.affixes@,
                        ilvl,
                        rarity,
                    );
                    let new = final(self).drops@.last();
                    &&& final(self).next_entity_id == old(self).next_entity_id + 1
                    &&& final(self).drops@ == old(self).drops@.push(new)
                    &&& new.id == old(self).next_entity_id
                    &&& new.x == x
                    &&& new.y == y
                    &&& is_rolled(new.item, pool, content.affixes@, ilvl, rarity, rolled)
                }
            }),
    {
        let mut rng = self.next_event_rng();
        let ghost pool = drop_pool(content.bases@, text_of(base_id));
        let rolled = match base_id {
            Some(id) => {
                let mut k: usize = 0;
                while k < content.bases.len() && !same_text(content.bases[k].id.as_str(), id)
                    invariant
                        k <= content.bases@.len(),
                        forall|j: int| 0 <= j < k ==> (#[trigger] content.bases@[j]).id@ != id@,
                    decreases content.bases@.len() - k,
                {
                    k = k + 1;
                }
                if k == content.bases.len() {
                    return ;
                }
                proof {
                    lemma_base_of(content.bases@, id@, k as int);
                    assert(content.bases@.subrange(k as int, k + 1) =~= pool);
                }
                let one = slice_subrange(content.bases.as_slice(), k, k + 1);
                roll_item(&mut rng, one, content.affixes.as_slice(), ilvl, rarity)
            },
            None => roll_item(
                &mut rng,
                content.bases.as_slice(),
                content.affixes.as_slice(),
                ilvl,
                rarity,
            ),
        };
        if let Ok(item) = rolled {
            self.push_drop(x, y, item);
        }
    }

    /// Wake every live enemy (aggro them all).
    pub fn debug_wake_all(&mut self)
        requires
            old(self).wf(),
        ensures
            final(self).wf(),
            final(self).enemies@ == all_awake(old(self).enemies@),
            *final(self) == (World { enemies: final(self).enemies, ..*old(self) }),
    {
        let n: usize = self.enemies.len();
        let ghost before = self.enemies@;
        for i in 0..n
            invariant
                n == before.len(),
                self.enemies@.len() == n,
                *self == (World { enemies: self.enemies, ..*old(self) }),
                forall|k: int|
                    0 <= k < n ==> #[trigger] self.enemies@[k] == (if k < i {
                        EnemyInstance { awake: true, ..before[k] }
                    } else {
                        before[k]
                    }),
        {
            let mut e = self.enemies[i];
            e.awake = true;
            self.enemies.set(i, e);
        }
        assert(self.enemies@ =~= all_awake(before));
    }

    /// Force-load a fresh, stock instance of weapon `base_id` for tuning. Replaces that
    /// archetype's rack slot if present (so it loads stock stats even over an upgraded
    /// copy), else adds a slot. No-op for an unknown or non-weapon base.
    pub fn debug_equip_base(&mut self, base_id: &str, a: &Appraisal, content: &Content)
        requires
            old(self).wf(),
        ensures
            final(self).wf(),
            final(self).same_but_rack(*old(self)),
            match weapon_base(content.bases@, base_id@) {
                None => *final(self) == *old(self),
                Some(base) => exists|item: ItemInstance| #[trigger]
                    is_stock(item, base_id@) && final(self).rack() == old(self).rack().placed(
                        racked(item, *a, base),
                    ).activated(old(self).rack().slot_for(base_id@)),
            },
    {
        let item = stock_item(base_id);
        self.force_equip(item, a, content);
    }

    /// Restore the player to full life and lift `game_over` — revive without a full world
    /// reset.
    pub fn debug_revive(&mut self)
        requires
            old(self).wf(),
        ensures
            final(self).wf(),
            *final(self) == (World {
                player: crate::game::entity::Player {
                    current_life: old(self).player.max_life,
                    ..old(self).player
                },
                game_over: false,
                ..*old(self)
            }),
    {
        self.player.current_life = self.player.max_life;
        self.game_over = false;
    }
}

/// What a debug drop is rolled from: everything, unless a base is forced. Then it is the first
/// base of that id alone, and nothing where there is none.
pub proof fn law_forced_drops(bases: Seq<BaseItem>, id: Seq<char>, k: int)
    requires
        0 <= k <= bases.len(),
        forall|j: int| 0 <= j < k ==> (#[trigger] bases[j]).id@ != id,
        k < bases.len() ==> bases[k].id@ == id,
    ensures
        drop_pool(bases, None) == bases,
        k < bases.len() ==> drop_pool(bases, Some(id)) == seq![bases[k]],
        k == bases.len() ==> drop_pool(bases, Some(id)).len() == 0,
{
    if k < bases.len() {
        assert(crate::game::rack::first_base(bases, id, k));
        lemma_base_of(bases, id, k);
    } else if has_base(bases, id) {
        let j = choose|j: int| crate::game::rack::first_base(bases, id, j);
        assert(bases[j].id@ == id);
    }
}

/// Waking everyone changes nothing about anyone but that they are awake.
pub proof fn law_everyone_wakes(enemies: Seq<EnemyInstance>, i: int)
    requires
        0 <= i < enemies.len(),
    ensures
        all_awake(enemies).len() == enemies.len(),
        all_awake(enemies)[i].awake,
        all_awake(enemies)[i] == (EnemyInstance { awake: true, ..enemies[i] }),
{
}

} // verus!
