//! The best attachments for a weapon: all combinations of compatible ones, and the first of
//! those that no other beats.

use vstd::prelude::*;

use crate::rules::combat::Combatant;
use crate::rules::enemy::Enemy;
use crate::rules::item::{Attachment, BaseItem, ItemInstance, Rarity};
use crate::scalar::Scalar;
use crate::text::{contains_string, copy_strings, law_listed_texts, lists, same_text, texts};

verus! {

/// The life of the dummy that stands in where there is no enemy: 100.
pub const DUMMY_LIFE: u32 = 0x42c8_0000;

/// The bit pattern of -1, below every combination's damage.
pub const MINUS_ONE: u32 = 0xbf80_0000;

/// Whether an attachment fits a slot of a base.
pub open spec fn fits(a: Attachment, slot: Seq<char>, base: BaseItem) -> bool {
    a.slot_type@ == slot && lists(a.allowed_categories@, base.category@)
}

/// The ids of the attachments among the first `n` that fit a slot of a base.
pub open spec fn fitting(
    attachments: Seq<Attachment>,
    slot: Seq<char>,
    base: BaseItem,
    n: int,
) -> Seq<Seq<char>>
    decreases n,
{
    if n <= 0 {
        Seq::empty()
    } else if fits(attachments[n - 1], slot, base) {
        fitting(attachments, slot, base, n - 1).push(attachments[n - 1].id@)
    } else {
        fitting(attachments, slot, base, n - 1)
    }
}

/// What fits each of the first `n` slots of a base, without the slots that nothing fits.
pub open spec fn choices(base: BaseItem, attachments: Seq<Attachment>, n: int) -> Seq<Seq<Seq<char>>>
    decreases n,
{
    if n <= 0 {
        Seq::empty()
    } else {
        let before = choices(base, attachments, n - 1);
        let fit = fitting(
            attachments,
            base.attachment_slots@[n - 1]@,
            base,
            attachments.len() as int,
        );
        if fit.len() == 0 {
            before
        } else {
            before.push(fit)
        }
    }
}

/// Each of some combinations followed by one more choice.
pub open spec fn extended(combos: Seq<Seq<Seq<char>>>, choice: Seq<Seq<char>>, n: int) -> Seq<
    Seq<Seq<char>>,
>
    decreases n,
{
    if n <= 0 {
        Seq::empty()
    } else {
        extended(combos, choice, n - 1) + choice.map_values(|c: Seq<char>| combos[n - 1].push(c))
    }
}

/// All ways to make one choice for each of the first `n` slots, the last slot changing
/// fastest.
pub open spec fn combinations(slots: Seq<Seq<Seq<char>>>, n: int) -> Seq<Seq<Seq<char>>>
    decreases n,
{
    if n <= 0 {
        seq![Seq::empty()]
    } else {
        let before = combinations(slots, n - 1);
        extended(before, slots[n - 1], before.len() as int)
    }
}

/// The combinations of attachments that a base can carry; none where nothing fits.
pub open spec fn all_combos(base: BaseItem, attachments: Seq<Attachment>) -> Seq<Seq<Seq<char>>> {
    let slots = choices(base, attachments, base.attachment_slots@.len() as int);
    if slots.len() == 0 {
        Seq::empty()
    } else {
        combinations(slots, slots.len() as int)
    }
}

/// Combinations as they read.
pub open spec fn combo_texts(v: Seq<Vec<String>>) -> Seq<Seq<Seq<char>>> {
    v.map_values(|c: Vec<String>| texts(c@))
}

/// The ids of the attachments that fit a slot of a base.
fn fitting_ids(attachments: &[Attachment], slot: &String, base: &BaseItem) -> (ids: Vec<String>)
    ensures
        texts(ids@) == fitting(attachments@, slot@, *base, attachments@.len() as int),
{
    let mut ids: Vec<String> = Vec::new();
    assert(texts(ids@) =~= Seq::empty());
    for i in 0..attachments.len()
        invariant
            texts(ids@) == fitting(attachments@, slot@, *base, i as int),
    {
        let a = &attachments[i];
        if a.slot_type == *slot && contains_string(&a.allowed_categories, &base.category) {
            let ghost before = ids@;
            ids.push(a.id.clone());
            assert(texts(ids@) =~= texts(before).push(a.id@));
        }
    }
    ids
}

/// Each of some combinations followed by one more choice.
fn extend_all(combos: &Vec<Vec<String>>, choice: &Vec<String>) -> (out: Vec<Vec<String>>)
    ensures
        combo_texts(out@) == extended(
            combo_texts(combos@),
            texts(choice@),
            combos@.len() as int,
        ),
{
    let mut out: Vec<Vec<String>> = Vec::new();
    let ghost all = combo_texts(combos@);
    let ghost more = texts(choice@);
    assert(combo_texts(out@) =~= Seq::empty());
    for i in 0..combos.len()
        invariant
            all == combo_texts(combos@),
            more == texts(choice@),
            combo_texts(out@) == extended(all, more, i as int),
    {
        let ghost before = combo_texts(out@);
        let ghost row = more.map_values(|c: Seq<char>| all[i as int].push(c));
        assert(before + row.take(0) =~= before);
        for k in 0..choice.len()
            invariant
                i < combos@.len(),
                all == combo_texts(combos@),
                more == texts(choice@),
                row == more.map_values(|c: Seq<char>| all[i as int].push(c)),
                combo_texts(out@) == before + row.take(k as int),
        {
            let ghost sofar = out@;
            let mut combo = copy_strings(&combos[i]);
            let ghost head = combo@;
            combo.push(choice[k].clone());
            proof {
                assert(texts(combo@) =~= texts(head).push(choice@[k as int]@));
                assert(texts(combo@) == row[k as int]);
            }
            out.push(combo);
            assert(combo_texts(out@) =~= combo_texts(sofar).push(row[k as int]));
            assert((before + row.take(k as int)).push(row[k as int]) =~= before + row.take(k + 1));
        }
        assert(row.take(row.len() as int) =~= row);
    }
    out
}

/// The combinations of compatible attachments for a base, one per slot that anything fits,
/// the last slot changing fastest. Slots with no compatible attachment are skipped.
pub fn loadout_combos(base: &BaseItem, attachments: &[Attachment]) -> (combos: Vec<Vec<String>>)
    ensures
        combo_texts(combos@) == all_combos(*base, attachments@),
{
    let mut slots: Vec<Vec<String>> = Vec::new();
    assert(combo_texts(slots@) =~= Seq::empty());
    for i in 0..base.attachment_slots.len()
        invariant
            combo_texts(slots@) == choices(*base, attachments@, i as int),
    {
        let ids = fitting_ids(attachments, &base.attachment_slots[i], base);
        assert(texts(ids@).len() == ids@.len());
        if ids.len() > 0 {
            let ghost before = slots@;
            slots.push(ids);
            assert(combo_texts(slots@) =~= combo_texts(before).push(texts(ids@)));
        }
    }
    let ghost all = combo_texts(slots@);
    assert(all.len() == slots@.len());
    if slots.len() == 0 {
        let none: Vec<Vec<String>> = Vec::new();
        assert(combo_texts(none@) =~= Seq::empty());
        return none;
    }
    let mut combos: Vec<Vec<String>> = Vec::new();
    let empty: Vec<String> = Vec::new();
    combos.push(empty);
    proof {
        assert(texts(empty@) =~= Seq::<Seq<char>>::empty());
        assert(combo_texts(combos@) =~= combinations(all, 0));
    }
    for i in 0..slots.len()
        invariant
            all == combo_texts(slots@),
            combo_texts(combos@) == combinations(all, i as int),
    {
        assert(combo_texts(combos@).len() == combos@.len());
        combos = extend_all(&combos, &slots[i]);
    }
    combos
}

/// Which of the first `n` combinations is the best, and how much damage it does: the first
/// that does more than all before it, and more than -1.
pub open spec fn best_of(dps: Seq<Scalar>, n: int) -> (Option<int>, Scalar)
    decreases n,
{
    if n <= 0 {
        (None, Scalar { bits: MINUS_ONE })
    } else {
        let (best, most) = best_of(dps, n - 1);
        if most.less_than(dps[n - 1]) {
            (Some(n - 1), dps[n - 1])
        } else {
            (best, most)
        }
    }
}

/// The combination that does the most damage, given the damage of each.
pub fn best_combo(dps: &Vec<Scalar>) -> (best: Option<usize>)
    ensures
        match best {
            None => best_of(dps@, dps@.len() as int).0 is None,
            Some(k) => best_of(dps@, dps@.len() as int).0 == Some(k as int) && k < dps@.len(),
        },
{
    let mut best: Option<usize> = None;
    let mut most = Scalar { bits: MINUS_ONE };
    for k in 0..dps.len()
        invariant
            most == best_of(dps@, k as int).1,
            match best {
                None => best_of(dps@, k as int).0 is None,
                Some(b) => best_of(dps@, k as int).0 == Some(b as int) && b < k,
            },
    {
        if most.lt(&dps[k]) {
            most = dps[k];
            best = Some(k);
        }
    }
    best
}

/// A weapon as it is measured with a combination of attachments: tier 0, without affixes.
pub open spec fn is_bench(item: ItemInstance, base: Seq<char>, combo: Seq<Seq<char>>) -> bool {
    &&& item.base@ == base
    &&& item.ilvl == 60
    &&& item.rarity == Rarity::Basic
    &&& item.seed == 0
    &&& item.prefixes@.len() == 0
    &&& item.suffixes@.len() == 0
    &&& item.upgrade_tier == 0
    &&& texts(item.attached@) == combo
}

/// A weapon as it is measured with a combination of attachments.
pub fn bench_item(base: &BaseItem, combo: &Vec<String>) -> (item: ItemInstance)
    ensures
        is_bench(item, base.id@, texts(combo@)),
{
    ItemInstance {
        base: base.id.clone(),
        ilvl: 60,
        rarity: Rarity::Basic,
        seed: 0,
        prefixes: Vec::new(),
        suffixes: Vec::new(),
        upgrade_tier: 0,
        attached: copy_strings(combo),
    }
}

/// The combination that was chosen: the best one, or none.
pub fn optimal_loadout(combos: &Vec<Vec<String>>, dps: &Vec<Scalar>) -> (best: Vec<String>)
    requires
        combos@.len() == dps@.len(),
    ensures
        match best_of(dps@, dps@.len() as int).0 {
            None => best@.len() == 0,
            Some(k) => 0 <= k < combos@.len() && best@ == combos@[k]@,
        },
{
    match best_combo(dps) {
        None => Vec::new(),
        Some(k) => copy_strings(&combos[k]),
    }
}

/// The best combination does at least as much damage as any other, and more than any before
/// it.
pub proof fn law_best_is_best(dps: Seq<Scalar>, n: int, i: int)
    requires
        0 <= i < n <= dps.len(),
        !dps[i].is_nan(),
    ensures
        !best_of(dps, n).1.is_nan(),
        dps[i].value() <= best_of(dps, n).1.value(),
        best_of(dps, n).0 matches Some(k) ==> 0 <= k < n && dps[k] == best_of(dps, n).1 && (i < k
            ==> dps[i].value() < dps[k].value()),
    decreases n,
{
    lemma_best(dps, n);
    if i < n - 1 {
        law_best_is_best(dps, n - 1, i);
    }
}

proof fn lemma_best(dps: Seq<Scalar>, n: int)
    requires
        0 <= n <= dps.len(),
    ensures
        !best_of(dps, n).1.is_nan(),
        best_of(dps, n).0 matches Some(k) ==> 0 <= k < n && dps[k] == best_of(dps, n).1,
    decreases n,
{
    if n > 0 {
        lemma_best(dps, n - 1);
    }
}

/// The number of combinations is the product of the numbers of choices.
pub open spec fn product_of(slots: Seq<Seq<Seq<char>>>, n: int) -> int
    decreases n,
{
    if n <= 0 {
        1
    } else {
        product_of(slots, n - 1) * slots[n - 1].len()
    }
}

proof fn lemma_extended_len(combos: Seq<Seq<Seq<char>>>, choice: Seq<Seq<char>>, n: int)
    requires
        0 <= n <= combos.len(),
    ensures
        extended(combos, choice, n).len() == n * choice.len(),
    decreases n,
{
    if n > 0 {
        lemma_extended_len(combos, choice, n - 1);
        assert((n - 1) * choice.len() + choice.len() == n * choice.len()) by (nonlinear_arith);
    } else {
        assert(n * choice.len() == 0) by (nonlinear_arith)
            requires
                n == 0,
        ;
    }
}

/// Every combination is tried: there are as many as the product of the numbers of choices
/// for the slots.
pub proof fn law_all_combinations_are_tried(slots: Seq<Seq<Seq<char>>>, n: int)
    requires
        0 <= n <= slots.len(),
    ensures
        combinations(slots, n).len() == product_of(slots, n),
    decreases n,
{
    if n > 0 {
        law_all_combinations_are_tried(slots, n - 1);
        let before = combinations(slots, n - 1);
        lemma_extended_len(before, slots[n - 1], before.len() as int);
    }
}

/// Whether the given attachment of a list goes by this id and fits a slot of a base.
pub open spec fn is_fitting(
    attachments: Seq<Attachment>,
    slot: Seq<char>,
    base: BaseItem,
    k: int,
    id: Seq<char>,
) -> bool {
    0 <= k < attachments.len() && fits(attachments[k], slot, base) && attachments[k].id@ == id
}

/// Whether anything fits the given slot of a base.
pub open spec fn usable(base: BaseItem, attachments: Seq<Attachment>, slot: int) -> bool {
    exists|k: int|
        0 <= k < attachments.len() && fits(
            #[trigger] attachments[k],
            base.attachment_slots@[slot]@,
            base,
        )
}

/// The indices of those among the first `n` slots of a base that anything fits.
pub open spec fn usable_slots(base: BaseItem, attachments: Seq<Attachment>, n: int) -> Seq<int>
    decreases n,
{
    if n <= 0 {
        Seq::empty()
    } else if usable(base, attachments, n - 1) {
        usable_slots(base, attachments, n - 1).push(n - 1)
    } else {
        usable_slots(base, attachments, n - 1)
    }
}

/// Whether this is the id of an attachment that fits the given slot of a base.
pub open spec fn fills(
    base: BaseItem,
    attachments: Seq<Attachment>,
    slot: int,
    id: Seq<char>,
) -> bool {
    exists|k: int| is_fitting(attachments, base.attachment_slots@[slot]@, base, k, id)
}

/// Whether these are the ids of one fitting attachment for each of the given slots of a
/// base.
pub open spec fn one_for_each(
    base: BaseItem,
    attachments: Seq<Attachment>,
    slots: Seq<int>,
    ids: Seq<Seq<char>>,
) -> bool {
    &&& ids.len() == slots.len()
    &&& forall|i: int|
        0 <= i < ids.len() ==> fills(base, attachments, slots[i], #[trigger] ids[i])
}

/// What fits a slot is what the list holds that does.
proof fn lemma_fitting(
    attachments: Seq<Attachment>,
    slot: Seq<char>,
    base: BaseItem,
    n: int,
    id: Seq<char>,
)
    requires
        0 <= n <= attachments.len(),
    ensures
        fitting(attachments, slot, base, n).contains(id) <==> exists|k: int|
            k < n && is_fitting(attachments, slot, base, k, id),
    decreases n,
{
    if n > 0 {
        lemma_fitting(attachments, slot, base, n - 1, id);
        let before = fitting(attachments, slot, base, n - 1);
        let after = fitting(attachments, slot, base, n);
        if before.contains(id) {
            let j = choose|j: int| 0 <= j < before.len() && before[j] == id;
            assert(after[j] == id);
        }
        if fits(attachments[n - 1], slot, base) {
            assert(after.last() == attachments[n - 1].id@);
            if attachments[n - 1].id@ == id {
                assert(is_fitting(attachments, slot, base, n - 1, id));
            } else if after.contains(id) {
                let j = choose|j: int| 0 <= j < after.len() && after[j] == id;
                assert(before[j] == id);
            }
        }
    }
}

/// The choices are what fits the slots that anything fits.
proof fn lemma_choices(base: BaseItem, attachments: Seq<Attachment>, n: int)
    requires
        0 <= n <= base.attachment_slots@.len(),
    ensures
        choices(base, attachments, n).len() == usable_slots(base, attachments, n).len(),
        forall|i: int|
            0 <= i < choices(base, attachments, n).len() ==> #[trigger] choices(
                base,
                attachments,
                n,
            )[i] == fitting(
                attachments,
                base.attachment_slots@[usable_slots(base, attachments, n)[i]]@,
                base,
                attachments.len() as int,
            ),
    decreases n,
{
    if n > 0 {
        lemma_choices(base, attachments, n - 1);
        let slot = base.attachment_slots@[n - 1]@;
        let all = attachments.len() as int;
        let fit = fitting(attachments, slot, base, all);
        if fit.len() > 0 {
            lemma_fitting(attachments, slot, base, all, fit[0]);
            assert(fit.contains(fit[0]));
            let k = choose|k: int| k < all && is_fitting(attachments, slot, base, k, fit[0]);
            assert(fits(attachments[k], slot, base));
        } else if usable(base, attachments, n - 1) {
            let k = choose|k: int| 0 <= k < all && fits(#[trigger] attachments[k], slot, base);
            assert(is_fitting(attachments, slot, base, k, attachments[k].id@));
            lemma_fitting(attachments, slot, base, all, attachments[k].id@);
        }
    }
}

/// A longer combination is one of the shorter ones followed by a choice.
proof fn lemma_extended(
    combos: Seq<Seq<Seq<char>>>,
    choice: Seq<Seq<char>>,
    n: int,
    c: Seq<Seq<char>>,
)
    requires
        0 <= n <= combos.len(),
    ensures
        extended(combos, choice, n).contains(c) <==> c.len() > 0 && combos.take(n).contains(
            c.drop_last(),
        ) && choice.contains(c.last()),
    decreases n,
{
    if n > 0 {
        lemma_extended(combos, choice, n - 1, c);
        let before = extended(combos, choice, n - 1);
        let row = choice.map_values(|x: Seq<char>| combos[n - 1].push(x));
        assert(combos.take(n) =~= combos.take(n - 1).push(combos[n - 1]));
        if extended(combos, choice, n).contains(c) {
            let longer = before + row;
            let j = choose|j: int| 0 <= j < longer.len() && longer[j] == c;
            if j < before.len() {
                assert(before[j] == c);
                let shorter = combos.take(n - 1);
                let m = choose|m: int| 0 <= m < shorter.len() && shorter[m] == c.drop_last();
                assert(combos.take(n)[m] == c.drop_last());
            } else {
                let m = j - before.len();
                assert(c == combos[n - 1].push(choice[m]));
                assert(c.drop_last() =~= combos[n - 1]);
                assert(combos.take(n)[n - 1] == c.drop_last());
                assert(c.last() == choice[m]);
            }
        }
        if c.len() > 0 && combos.take(n).contains(c.drop_last()) && choice.contains(c.last()) {
            let shorter = combos.take(n);
            let m = choose|m: int| 0 <= m < shorter.len() && shorter[m] == c.drop_last();
            if m < n - 1 {
                assert(combos.take(n - 1)[m] == c.drop_last());
                let j = choose|j: int| 0 <= j < before.len() && before[j] == c;
                assert((before + row)[j] == c);
            } else {
                let j = choose|j: int| 0 <= j < choice.len() && choice[j] == c.last();
                assert(c =~= combos[n - 1].push(choice[j]));
                assert((before + row)[before.len() + j] == c);
            }
        }
    }
}

/// The combinations of some choices are exactly the ways to make one choice from each.
pub proof fn law_combinations_choose_from_each(
    slots: Seq<Seq<Seq<char>>>,
    n: int,
    c: Seq<Seq<char>>,
)
    requires
        0 <= n <= slots.len(),
    ensures
        combinations(slots, n).contains(c) <==> c.len() == n && forall|i: int|
            0 <= i < n ==> slots[i].contains(#[trigger] c[i]),
    decreases n,
{
    if n == 0 {
        if c.len() == 0 {
            assert(c =~= combinations(slots, 0)[0]);
        }
    } else {
        let before = combinations(slots, n - 1);
        lemma_extended(before, slots[n - 1], before.len() as int, c);
        assert(before.take(before.len() as int) =~= before);
        if c.len() > 0 {
            let head = c.drop_last();
            law_combinations_choose_from_each(slots, n - 1, head);
            if combinations(slots, n).contains(c) {
                assert forall|i: int| 0 <= i < n implies slots[i].contains(#[trigger] c[i]) by {
                    if i < n - 1 {
                        assert(slots[i].contains(head[i]));
                    }
                }
            }
            if c.len() == n && forall|i: int| 0 <= i < n ==> slots[i].contains(#[trigger] c[i]) {
                assert forall|i: int| 0 <= i < n - 1 implies slots[i].contains(
                    #[trigger] head[i],
                ) by {
                    assert(slots[i].contains(c[i]));
                }
            }
        }
    }
}

/// The combinations that a base can carry are exactly those of one fitting attachment for
/// each of its slots that anything fits; where nothing fits any, there are none.
pub proof fn law_combos_fill_every_usable_slot(
    base: BaseItem,
    attachments: Seq<Attachment>,
    c: Seq<Seq<char>>,
)
    ensures
        ({
            let slots = usable_slots(base, attachments, base.attachment_slots@.len() as int);
            all_combos(base, attachments).contains(c) <==> slots.len() > 0 && one_for_each(
                base,
                attachments,
                slots,
                c,
            )
        }),
{
    let n = base.attachment_slots@.len() as int;
    let all = attachments.len() as int;
    let slots = usable_slots(base, attachments, n);
    let picks = choices(base, attachments, n);
    lemma_choices(base, attachments, n);
    law_combinations_choose_from_each(picks, picks.len() as int, c);
    if c.len() == slots.len() {
        assert forall|i: int| 0 <= i < c.len() implies (picks[i].contains(#[trigger] c[i])
            <==> fills(base, attachments, slots[i], c[i])) by {
            let slot = base.attachment_slots@[slots[i]]@;
            lemma_fitting(attachments, slot, base, all, c[i]);
            if fills(base, attachments, slots[i], c[i]) {
                let k = choose|k: int| is_fitting(attachments, slot, base, k, c[i]);
                assert(k < all && is_fitting(attachments, slot, base, k, c[i]));
            }
        }
    }
}

/// What times to kill are measured against: the basic zombie, or the first enemy, or a
/// naked dummy.
pub open spec fn baseline_of(enemies: Seq<Enemy>) -> Combatant {
    if exists|k: int| first_basic(enemies, k) {
        enemies[choose|k: int| first_basic(enemies, k)].profile()
    } else if enemies.len() > 0 {
        enemies[0].profile()
    } else {
        Combatant {
            max_life: Scalar { bits: DUMMY_LIFE },
            current_life: Scalar { bits: DUMMY_LIFE },
            armor: Scalar { bits: 0 },
            evasion: Scalar { bits: 0 },
        }
    }
}

/// Whether the `k`-th enemy is the first basic zombie.
pub open spec fn first_basic(enemies: Seq<Enemy>, k: int) -> bool {
    &&& 0 <= k < enemies.len()
    &&& enemies[k].id@ == "basic_zombie"@
    &&& forall|j: int| 0 <= j < k ==> (#[trigger] enemies[j]).id@ != "basic_zombie"@
}

/// What times to kill are measured against.
pub fn baseline(enemies: &[Enemy]) -> (c: Combatant)
    ensures
        c == baseline_of(enemies@),
{
    for k in 0..enemies.len()
        invariant
            forall|j: int| 0 <= j < k ==> (#[trigger] enemies@[j]).id@ != "basic_zombie"@,
    {
        if same_text(enemies[k].id.as_str(), "basic_zombie") {
            proof {
                assert(first_basic(enemies@, k as int));
                let c = choose|c: int| first_basic(enemies@, c);
                assert(first_basic(enemies@, c));
                assert(c == k);
            }
            return enemies[k].as_combatant();
        }
    }
    if enemies.len() > 0 {
        enemies[0].as_combatant()
    } else {
        Combatant::dummy(Scalar { bits: DUMMY_LIFE })
    }
}

/// What fits: an attachment for the kind of the slot, if it is allowed on the category of the
/// base.
pub proof fn law_what_fits(a: Attachment, slot: Seq<char>, base: BaseItem)
    ensures
        fits(a, slot, base) <==> a.slot_type@ == slot && texts(a.allowed_categories@).contains(
            base.category@,
        ),
{
    law_listed_texts(a.allowed_categories@, base.category@);
}

/// What times to kill are measured against: the first basic zombie of the list, at full life;
/// without one, the first enemy; and without any, a dummy with a life of 100 and no
/// defenses.
pub proof fn law_baselines(enemies: Seq<Enemy>, k: int)
    requires
        0 <= k <= enemies.len(),
        forall|j: int| 0 <= j < k ==> (#[trigger] enemies[j]).id@ != "basic_zombie"@,
        k < enemies.len() ==> enemies[k].id@ == "basic_zombie"@,
    ensures
        ({
            let c = baseline_of(enemies);
            let n = enemies.len();
            let e = if k < n {
                enemies[k]
            } else {
                enemies[0]
            };
            &&& n > 0 ==> c == (Combatant {
                max_life: e.max_life,
                current_life: e.max_life,
                armor: e.armor,
                evasion: e.evasion,
            })
            &&& n == 0 ==> c.max_life.bits == 0x42c8_0000 && c.current_life == c.max_life
                && c.armor.bits == 0 && c.evasion.bits == 0
        }),
{
    if k < enemies.len() {
        assert(first_basic(enemies, k));
        let c = choose|c: int| first_basic(enemies, c);
        assert(first_basic(enemies, c));
        if c < k {
            assert(enemies[c].id@ != "basic_zombie"@);
        } else if k < c {
            assert(enemies[k].id@ != "basic_zombie"@);
        }
    } else if exists|c: int| first_basic(enemies, c) {
        let c = choose|c: int| first_basic(enemies, c);
        assert(enemies[c].id@ == "basic_zombie"@);
    }
}

/// A weapon is measured bare: a basic one without affixes or upgrades, with the combination
/// attached and nothing else.
pub proof fn law_bench_weapons(item: ItemInstance, base: Seq<char>, combo: Seq<Seq<char>>)
    requires
        is_bench(item, base, combo),
    ensures
        item.base@ == base,
        item.rarity.rank() == 0,
        item.prefixes@.len() + item.suffixes@.len() == 0,
        item.upgrade_tier == 0,
        texts(item.attached@) == combo,
{
}

/// Combinations are tried in the order in which the last slot changes fastest: each of the
/// shorter ones is followed by every choice for the last slot, before the next one comes.
pub proof fn law_last_slot_changes_fastest(slots: Seq<Seq<Seq<char>>>, n: int, i: int, j: int)
    requires
        0 < n <= slots.len(),
        0 <= i < combinations(slots, n - 1).len(),
        0 <= j < slots[n - 1].len(),
    ensures
        ({
            let at = i * slots[n - 1].len() + j;
            &&& 0 <= at < combinations(slots, n).len()
            &&& combinations(slots, n)[at] == combinations(slots, n - 1)[i].push(slots[n - 1][j])
        }),
{
    let before = combinations(slots, n - 1);
    lemma_extended_at(before, slots[n - 1], before.len() as int, i, j);
}

proof fn lemma_extended_at(
    combos: Seq<Seq<Seq<char>>>,
    choice: Seq<Seq<char>>,
    n: int,
    i: int,
    j: int,
)
    requires
        0 <= i < n <= combos.len(),
        0 <= j < choice.len(),
    ensures
        0 <= i * choice.len() + j < extended(combos, choice, n).len(),
        extended(combos, choice, n)[i * choice.len() + j] == combos[i].push(choice[j]),
    decreases n,
{
    let m = choice.len() as int;
    lemma_extended_len(combos, choice, n - 1);
    lemma_extended_len(combos, choice, n);
    assert(0 <= i * m) by (nonlinear_arith)
        requires
            0 <= i,
            0 <= m,
    ;
    if i < n - 1 {
        lemma_extended_at(combos, choice, n - 1, i, j);
    } else {
        assert(n * m == (n - 1) * m + m) by (nonlinear_arith);
    }
}

/// Where none is the best, the most is still -1.
pub proof fn lemma_no_best(dps: Seq<Scalar>, n: int)
    ensures
        best_of(dps, n).0 is None ==> best_of(dps, n).1.bits == MINUS_ONE,
    decreases n,
{
    if n > 0 {
        lemma_no_best(dps, n - 1);
    }
}

} // verus!
