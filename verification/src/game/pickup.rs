//! Walking over drops: everything in reach is collected.

use vstd::multiset::Multiset;
use vstd::prelude::*;

use crate::game::entity::{Appraisal, Content, LootDrop};
use crate::game::nearby::within;
use crate::game::rack::{racked, weapon_base};
use crate::game::rack_laws::{law_pickups_lose_nothing, owned};
use crate::game::world::World;
use crate::procgen::spawn::swap_removed;
use crate::rules::item::ItemInstance;
use crate::scalar::Scalar;

verus! {

/// Whether one world becomes the other when the drops from the `i`-th on are looked at:
/// those in reach are collected, and the last drop takes the place of one that is. `d2` and
/// `worth` are the squared distances of the drops and what their items amount to.
pub open spec fn picked_up(
    before: World,
    after: World,
    i: int,
    d2: Seq<Scalar>,
    worth: Seq<Appraisal>,
    r2: Scalar,
    content: Content,
) -> bool
    decreases d2.len() - i,
{
    if i < 0 || i >= d2.len() {
        after == before
    } else if !within(d2[i], r2) {
        picked_up(before, after, i + 1, d2, worth, r2, content)
    } else {
        exists|mid: World|
            #![trigger mid.is_after_pickup(before, i, worth[i], content)]
            mid.is_after_pickup(before, i, worth[i], content) && picked_up(
                mid,
                after,
                i,
                swap_removed(d2, i),
                swap_removed(worth, i),
                r2,
                content,
            )
    }
}

impl World {
    /// Collect ground drops within reach of the player, given the squared distances of the
    /// drops and what their items amount to.
    pub fn collect_pickups(
        &mut self,
        d2: Vec<Scalar>,
        worth: Vec<Appraisal>,
        r2: &Scalar,
        content: &Content,
    )
        requires
            old(self).wf(),
            d2@.len() == old(self).drops@.len(),
            worth@.len() == old(self).drops@.len(),
        ensures
            final(self).wf(),
            picked_up(*old(self), *final(self), 0, d2@, worth@, *r2, *content),
    {
        let ghost start = *self;
        let ghost d0 = d2@;
        let ghost w0 = worth@;
        let mut d2 = d2;
        let mut worth = worth;
        let mut i: usize = 0;
        while i < self.drops.len()
            invariant
                self.wf(),
                i <= self.drops@.len(),
                d2@.len() == self.drops@.len(),
                worth@.len() == self.drops@.len(),
                forall|after: World| #[trigger]
                    picked_up(*self, after, i as int, d2@, worth@, *r2, *content) ==> picked_up(
                        start,
                        after,
                        0,
                        d0,
                        w0,
                        *r2,
                        *content,
                    ),
            decreases self.drops@.len() - i,
        {
            let ghost cur = *self;
            if d2[i].le(r2) {
                let ghost (dd, ww) = (d2@, worth@);
                let a: Appraisal = worth[i];
                self.collect_drop(i, &a, content);
                d2.swap_remove(i);
                worth.swap_remove(i);
                assert(d2@ =~= swap_removed(dd, i as int));
                assert(worth@ =~= swap_removed(ww, i as int));
                assert forall|after: World| #[trigger]
                    picked_up(*self, after, i as int, d2@, worth@, *r2, *content) implies picked_up(
                    start,
                    after,
                    0,
                    d0,
                    w0,
                    *r2,
                    *content,
                ) by {
                    assert(self.is_after_pickup(cur, i as int, ww[i as int], *content));
                    assert(picked_up(cur, after, i as int, dd, ww, *r2, *content));
                }
            } else {
                i = i + 1;
                assert forall|after: World| #[trigger]
                    picked_up(*self, after, i as int, d2@, worth@, *r2, *content) implies picked_up(
                    start,
                    after,
                    0,
                    d0,
                    w0,
                    *r2,
                    *content,
                ) by {
                    assert(picked_up(cur, after, i - 1, d2@, worth@, *r2, *content));
                }
            }
        }
        assert(picked_up(*self, *self, i as int, d2@, worth@, *r2, *content));
    }
}

/// Whether the drop at `j` stays on the ground when the drops from the `i`-th on are looked
/// at.
pub open spec fn stays(d2: Seq<Scalar>, r2: Scalar, i: int, j: int) -> bool {
    0 <= j < d2.len() && (j < i || !within(d2[j], r2))
}

/// Whether the `m`-th drop of a world is one that stays of another world's drops.
pub open spec fn stayed(
    before: World,
    after: World,
    d2: Seq<Scalar>,
    r2: Scalar,
    i: int,
    m: int,
) -> bool {
    exists|j: int| #[trigger] stays(d2, r2, i, j) && before.drops@[j] == after.drops@[m]
}

/// What was passed over or lies out of reach stays where it is, and nothing else stays.
proof fn lemma_pickups(
    before: World,
    after: World,
    i: int,
    d2: Seq<Scalar>,
    worth: Seq<Appraisal>,
    r2: Scalar,
    content: Content,
)
    requires
        picked_up(before, after, i, d2, worth, r2, content),
        0 <= i <= d2.len(),
        d2.len() == before.drops@.len(),
        worth.len() == before.drops@.len(),
    ensures
        forall|j: int| #[trigger]
            stays(d2, r2, i, j) ==> after.drops@.contains(before.drops@[j]),
        forall|m: int|
            0 <= m < after.drops@.len() ==> #[trigger] stayed(before, after, d2, r2, i, m),
    decreases d2.len() - i,
{
    if i == d2.len() {
        assert forall|j: int| #[trigger] stays(d2, r2, i, j) implies after.drops@.contains(
            before.drops@[j],
        ) by {
            assert(after.drops@[j] == before.drops@[j]);
        }
        assert forall|m: int| 0 <= m < after.drops@.len() implies #[trigger] stayed(
            before,
            after,
            d2,
            r2,
            i,
            m,
        ) by {
            assert(stays(d2, r2, i, m));
        }
    } else if !within(d2[i], r2) {
        lemma_pickups(before, after, i + 1, d2, worth, r2, content);
        assert forall|j: int| #[trigger] stays(d2, r2, i, j) implies after.drops@.contains(
            before.drops@[j],
        ) by {
            assert(stays(d2, r2, i + 1, j));
        }
        assert forall|m: int| 0 <= m < after.drops@.len() implies #[trigger] stayed(
            before,
            after,
            d2,
            r2,
            i,
            m,
        ) by {
            assert(stayed(before, after, d2, r2, i + 1, m));
            let j = choose|j: int| #[trigger]
                stays(d2, r2, i + 1, j) && before.drops@[j] == after.drops@[m];
            assert(stays(d2, r2, i, j));
        }
    } else {
        let mid = choose|mid: World|
            #![trigger mid.is_after_pickup(before, i, worth[i], content)]
            mid.is_after_pickup(before, i, worth[i], content) && picked_up(
                mid,
                after,
                i,
                swap_removed(d2, i),
                swap_removed(worth, i),
                r2,
                content,
            );
        let last = d2.len() - 1;
        let fewer = swap_removed(d2, i);
        lemma_pickups(mid, after, i, fewer, swap_removed(worth, i), r2, content);
        assert forall|j: int| #[trigger] stays(d2, r2, i, j) implies after.drops@.contains(
            before.drops@[j],
        ) by {
            let k = if j == last {
                i
            } else {
                j
            };
            assert(stays(fewer, r2, i, k));
            assert(mid.drops@[k] == before.drops@[j]);
        }
        assert forall|m: int| 0 <= m < after.drops@.len() implies #[trigger] stayed(
            before,
            after,
            d2,
            r2,
            i,
            m,
        ) by {
            assert(stayed(mid, after, fewer, r2, i, m));
            let k = choose|k: int| #[trigger]
                stays(fewer, r2, i, k) && mid.drops@[k] == after.drops@[m];
            let j = if k == i {
                last
            } else {
                k
            };
            assert(stays(d2, r2, i, j));
            assert(before.drops@[j] == mid.drops@[k]);
        }
    }
}

/// The player takes everything in reach and nothing else: what lay out of reach is still on
/// the ground, and whatever is on the ground lay out of reach.
pub proof fn law_pickups_take_what_is_in_reach(
    before: World,
    after: World,
    d2: Seq<Scalar>,
    worth: Seq<Appraisal>,
    r2: Scalar,
    content: Content,
)
    requires
        picked_up(before, after, 0, d2, worth, r2, content),
        d2.len() == before.drops@.len(),
        worth.len() == before.drops@.len(),
    ensures
        forall|j: int|
            0 <= j < d2.len() && !within(#[trigger] d2[j], r2) ==> after.drops@.contains(
                before.drops@[j],
            ),
        forall|m: int|
            0 <= m < after.drops@.len() ==> #[trigger] stayed(before, after, d2, r2, 0, m),
{
    lemma_pickups(before, after, 0, d2, worth, r2, content);
    assert forall|j: int|
        0 <= j < d2.len() && !within(#[trigger] d2[j], r2) implies after.drops@.contains(
        before.drops@[j],
    ) by {
        assert(stays(d2, r2, 0, j));
    }
}

/// The items of some drops.
pub open spec fn items_of(drops: Seq<LootDrop>) -> Multiset<ItemInstance> {
    drops.map_values(|d: LootDrop| d.item).to_multiset()
}

proof fn lemma_one_pickup(before: World, after: World, i: int, a: Appraisal, content: Content)
    requires
        after.is_after_pickup(before, i, a, content),
        0 <= i < before.drops@.len(),
    ensures
        items_of(after.drops@).add(owned(after.rack())) =~= items_of(before.drops@).add(
            owned(before.rack()),
        ),
{
    broadcast use vstd::seq_lib::group_to_multiset_ensures;
    broadcast use vstd::multiset::group_multiset_axioms;

    let all = before.drops@.map_values(|d: LootDrop| d.item);
    let item = all[i];
    let fewer = after.drops@.map_values(|d: LootDrop| d.item);
    let moved = all.update(i, all.last());
    assert(fewer =~= moved.drop_last());
    assert(moved.drop_last().push(all.last()) =~= moved);
    let (f, m, a0) = (fewer.to_multiset(), moved.to_multiset(), all.to_multiset());
    assert(f.insert(all.last()) =~= m);
    assert(all.contains(item));
    assert(a0.count(item) > 0);
    assert(m =~= a0.insert(all.last()).remove(item));
    assert forall|x: ItemInstance| f.insert(item).count(x) == a0.count(x) by {
        assert(f.insert(all.last()).count(x) == m.count(x));
        assert(a0.insert(all.last()).remove(item).count(x) == m.count(x));
    }
    assert(items_of(after.drops@).insert(item) =~= items_of(before.drops@));
    match weapon_base(content.bases@, item.base@) {
        None => {
            assert(owned(after.rack()) =~= owned(before.rack()).insert(item));
        },
        Some(base) => {
            law_pickups_lose_nothing(before.rack(), racked(item, a, base));
        },
    }
}

/// Nothing is lost and nothing comes out of nowhere when drops are picked up: what lies on
/// the ground and what the player owns are together the same items as before.
pub proof fn law_pickups_keep_every_item(
    before: World,
    after: World,
    i: int,
    d2: Seq<Scalar>,
    worth: Seq<Appraisal>,
    r2: Scalar,
    content: Content,
)
    requires
        picked_up(before, after, i, d2, worth, r2, content),
        0 <= i <= d2.len(),
        d2.len() == before.drops@.len(),
        worth.len() == before.drops@.len(),
    ensures
        items_of(after.drops@).add(owned(after.rack())) =~= items_of(before.drops@).add(
            owned(before.rack()),
        ),
    decreases d2.len() - i,
{
    if i == d2.len() {
    } else if !within(d2[i], r2) {
        law_pickups_keep_every_item(before, after, i + 1, d2, worth, r2, content);
    } else {
        let mid = choose|mid: World|
            #![trigger mid.is_after_pickup(before, i, worth[i], content)]
            mid.is_after_pickup(before, i, worth[i], content) && picked_up(
                mid,
                after,
                i,
                swap_removed(d2, i),
                swap_removed(worth, i),
                r2,
                content,
            );
        lemma_one_pickup(before, mid, i, worth[i], content);
        law_pickups_keep_every_item(
            mid,
            after,
            i,
            swap_removed(d2, i),
            swap_removed(worth, i),
            r2,
            content,
        );
    }
}

/// Picking drops up touches neither enemies nor the map nor any score, and leaves on the
/// ground exactly as many drops as lay farther away than the reach.
pub proof fn law_pickups_touch_nothing_else(
    before: World,
    after: World,
    i: int,
    d2: Seq<Scalar>,
    worth: Seq<Appraisal>,
    r2: Scalar,
    content: Content,
)
    requires
        picked_up(before, after, i, d2, worth, r2, content),
        0 <= i <= d2.len(),
        d2.len() == before.drops@.len(),
        worth.len() == before.drops@.len(),
        !r2.is_nan(),
    ensures
        after.enemies == before.enemies,
        after.map == before.map,
        after.player == before.player,
        after.kills == before.kills,
        after.xp == before.xp,
        after.event_seq == before.event_seq,
        after.drops@.len() == i + d2.skip(i).filter(
            |d: Scalar| d.is_nan() || d.value() > r2.value(),
        ).len(),
    decreases d2.len() - i,
{
    broadcast use vstd::seq_lib::group_to_multiset_ensures;
    broadcast use vstd::multiset::group_multiset_axioms;

    let far = |d: Scalar| d.is_nan() || d.value() > r2.value();
    if i == d2.len() {
        reveal(Seq::filter);
        assert(d2.skip(i) =~= Seq::empty());
    } else if !within(d2[i], r2) {
        law_pickups_touch_nothing_else(before, after, i + 1, d2, worth, r2, content);
        lemma_filter_first(d2.skip(i), far);
        assert(d2.skip(i).drop_first() =~= d2.skip(i + 1));
    } else {
        let mid = choose|mid: World|
            #![trigger mid.is_after_pickup(before, i, worth[i], content)]
            mid.is_after_pickup(before, i, worth[i], content) && picked_up(
                mid,
                after,
                i,
                swap_removed(d2, i),
                swap_removed(worth, i),
                r2,
                content,
            );
        let fewer = swap_removed(d2, i);
        law_pickups_touch_nothing_else(mid, after, i, fewer, swap_removed(worth, i), r2, content);
        let rest = d2.skip(i);
        lemma_filter_first(rest, far);
        if i == d2.len() - 1 {
            assert(fewer.skip(i) =~= Seq::empty());
            assert(rest.drop_first() =~= Seq::empty());
        } else {
            let tail = fewer.skip(i);
            lemma_filter_first(tail, far);
            reveal(Seq::filter);
            assert(tail.drop_first() =~= rest.drop_first().drop_last());
            assert(tail[0] == rest.drop_first().last());
        }
    }
}

/// A filtered sequence is its first element, if that is kept, and the rest, filtered.
proof fn lemma_filter_first(s: Seq<Scalar>, keep: spec_fn(Scalar) -> bool)
    requires
        s.len() > 0,
    ensures
        s.filter(keep).len() == s.drop_first().filter(keep).len() + if keep(s[0]) {
            1int
        } else {
            0
        },
    decreases s.len(),
{
    reveal(Seq::filter);
    if s.len() > 1 {
        lemma_filter_first(s.drop_last(), keep);
        assert(s.drop_last().drop_first() =~= s.drop_first().drop_last());
        assert(s.drop_first().last() == s.last());
    } else {
        assert(s.drop_first() =~= Seq::empty());
        assert(s.drop_last() =~= Seq::empty());
    }
}

} // verus!
