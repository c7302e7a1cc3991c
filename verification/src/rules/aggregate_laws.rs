//! What holds of the sheet of every item.

use vstd::prelude::*;

use crate::rules::affix::Affix;
use crate::rules::aggregate::{
    affix_modifiers, attached_modifiers, concerns, entry_for, first_affix, first_tier,
    fixed_modifiers, has_entry, intrinsics_for, is_sheet, item_modifiers, modifiers_for, 
    rolled_modifiers, source_of, stats_distinct, NamedModifiers, StatSheet, StatTerms,
};
use crate::rules::attach::{first_with_id, known, lemma_first_is_unique};
use crate::rules::item::{
    Attachment, BaseItem, IntrinsicStat, ItemInstance, Roll, RolledAffix,
};
use crate::rules::stats::{law_buckets_hold_their_kind, law_buckets_partition, Modifier, ModifierKind};

verus! {

/// Whether a rolled affix is of the `t`-th tier of the `k`-th affix of the table: the first
/// with its id, and the first tier there of its number.
pub open spec fn rolled_from(r: RolledAffix, affixes: Seq<Affix>, k: int, t: int) -> bool {
    &&& 0 <= k < affixes.len()
    &&& affixes[k].id@ == r.affix_id@
    &&& forall|j: int| 0 <= j < k ==> (#[trigger] affixes[j]).id@ != r.affix_id@
    &&& 0 <= t < affixes[k].tiers@.len()
    &&& affixes[k].tiers@[t].tier == r.tier
    &&& forall|j: int| 0 <= j < t ==> (#[trigger] affixes[k].tiers@[j]).tier != r.tier
}

/// Whether an id is that of the `k`-th attachment, and of none before it.
pub open spec fn attached_as(id: Seq<char>, attachments: Seq<Attachment>, k: int) -> bool {
    &&& 0 <= k < attachments.len()
    &&& attachments[k].id@ == id
    &&& forall|j: int| 0 <= j < k ==> (#[trigger] attachments[j]).id@ != id
}

/// Whether a sheet has an entry for a stat in which a roll of the given kind is counted.
pub open spec fn counts_in(sheet: StatSheet, stat: Seq<char>, kind: ModifierKind, v: Roll) -> bool {
    exists|e: int|
        0 <= e < sheet.stats@.len() && (#[trigger] sheet.stats@[e]).stat@ == stat && match kind {
            ModifierKind::Flat => sheet.stats@[e].terms.flat@.contains(v),
            ModifierKind::Increased => sheet.stats@[e].terms.increased@.contains(v),
            ModifierKind::More => sheet.stats@[e].terms.more@.contains(v),
        }
}

/// How many modifiers a rolled affix brings: one for each stat of its tier that has a roll,
/// or none if the table does not hold it.
pub open spec fn brought_by(r: RolledAffix, affixes: Seq<Affix>) -> int {
    if exists|k: int, t: int| rolled_from(r, affixes, k, t) {
        let (k, t) = choose|k: int, t: int| rolled_from(r, affixes, k, t);
        let stats = affixes[k].tiers@[t].stats@.len() as int;
        if stats < r.rolls@.len() {
            stats
        } else {
            r.rolls@.len() as int
        }
    } else {
        0
    }
}

/// How many modifiers the first `n` of some rolled affixes bring.
pub open spec fn brought_by_affixes(rolled: Seq<RolledAffix>, affixes: Seq<Affix>, n: int) -> int
    decreases n,
{
    if n <= 0 {
        0
    } else {
        brought_by_affixes(rolled, affixes, n - 1) + brought_by(rolled[n - 1], affixes)
    }
}

/// How many modifiers an attached id brings: those of its attachment, or none if it is
/// unknown.
pub open spec fn brought_by_id(id: Seq<char>, attachments: Seq<Attachment>) -> int {
    if exists|k: int| attached_as(id, attachments, k) {
        attachments[choose|k: int| attached_as(id, attachments, k)].modifiers@.len() as int
    } else {
        0
    }
}

/// How many modifiers the first `n` of some attached ids bring.
pub open spec fn brought_by_attached(
    attached: Seq<String>,
    attachments: Seq<Attachment>,
    n: int,
) -> int
    decreases n,
{
    if n <= 0 {
        0
    } else {
        brought_by_attached(attached, attachments, n - 1) + brought_by_id(
            attached[n - 1]@,
            attachments,
        )
    }
}

/// How many modifiers the first `n` entries of a sheet hold.
pub open spec fn held_by(entries: Seq<StatTerms>, n: int) -> int
    decreases n,
{
    if n <= 0 {
        0
    } else {
        let t = entries[n - 1].terms;
        held_by(entries, n - 1) + t.flat@.len() + t.increased@.len() + t.more@.len()
    }
}

/// How many intrinsic values the first `n` entries of a sheet hold.
pub open spec fn bases_of(entries: Seq<StatTerms>, n: int) -> int
    decreases n,
{
    if n <= 0 {
        0
    } else {
        bases_of(entries, n - 1) + entries[n - 1].terms.base@.len()
    }
}

/// What an affix was rolled from is unique.
proof fn lemma_source(r: RolledAffix, affixes: Seq<Affix>, k: int, t: int)
    requires
        rolled_from(r, affixes, k, t),
    ensures
        source_of(r, affixes) == Some(affixes[k].tiers@[t]),
        brought_by(r, affixes) == rolled_modifiers(r, affixes).len(),
{
    assert(first_affix(affixes, r.affix_id@, k));
    let j = choose|j: int| first_affix(affixes, r.affix_id@, j);
    assert(first_affix(affixes, r.affix_id@, j));
    assert(j == k) by {
        if j < k {
            assert(affixes[j].id@ != r.affix_id@);
        } else if k < j {
            assert(affixes[k].id@ != r.affix_id@);
        }
    }
    let tiers = affixes[k].tiers@;
    assert(first_tier(tiers, r.tier, t));
    let u = choose|u: int| first_tier(tiers, r.tier, u);
    assert(first_tier(tiers, r.tier, u));
    assert(u == t) by {
        if u < t {
            assert(tiers[u].tier != r.tier);
        } else if t < u {
            assert(tiers[t].tier != r.tier);
        }
    }
    let (a, b) = choose|a: int, b: int| rolled_from(r, affixes, a, b);
    assert(rolled_from(r, affixes, a, b));
    assert(a == k) by {
        if a < k {
            assert(affixes[a].id@ != r.affix_id@);
        } else if k < a {
            assert(affixes[k].id@ != r.affix_id@);
        }
    }
    assert(b == t) by {
        if b < t {
            assert(tiers[b].tier != r.tier);
        } else if t < b {
            assert(tiers[t].tier != r.tier);
        }
    }
}

/// A rolled affix brings as many modifiers as it has.
proof fn lemma_brought(r: RolledAffix, affixes: Seq<Affix>)
    ensures
        brought_by(r, affixes) == rolled_modifiers(r, affixes).len(),
{
    if exists|k: int, t: int| rolled_from(r, affixes, k, t) {
        let (k, t) = choose|k: int, t: int| rolled_from(r, affixes, k, t);
        lemma_source(r, affixes, k, t);
    } else if source_of(r, affixes) is Some {
        let k = choose|k: int| first_affix(affixes, r.affix_id@, k);
        let t = choose|t: int| first_tier(affixes[k].tiers@, r.tier, t);
        assert(first_affix(affixes, r.affix_id@, k));
        assert(first_tier(affixes[k].tiers@, r.tier, t));
        assert(rolled_from(r, affixes, k, t));
    }
}

proof fn lemma_affix_modifiers(rolled: Seq<RolledAffix>, affixes: Seq<Affix>, n: int, i: int, s: int)
    requires
        0 <= n <= rolled.len(),
    ensures
        affix_modifiers(rolled, affixes, n).len() == brought_by_affixes(rolled, affixes, n),
        0 <= i < n && 0 <= s < rolled_modifiers(rolled[i], affixes).len() ==> affix_modifiers(
            rolled,
            affixes,
            n,
        ).contains(rolled_modifiers(rolled[i], affixes)[s]),
    decreases n,
{
    if n > 0 {
        lemma_affix_modifiers(rolled, affixes, n - 1, i, s);
        lemma_brought(rolled[n - 1], affixes);
        if 0 <= i < n && 0 <= s < rolled_modifiers(rolled[i], affixes).len() {
            let before = affix_modifiers(rolled, affixes, n - 1);
            let own = rolled_modifiers(rolled[n - 1], affixes);
            let m = rolled_modifiers(rolled[i], affixes)[s];
            if i == n - 1 {
                assert((before + own)[before.len() + s] == m);
            } else {
                let j = choose|j: int| 0 <= j < before.len() && before[j] == m;
                assert((before + own)[j] == m);
            }
        }
    }
}

proof fn lemma_attached_modifiers(
    attached: Seq<String>,
    attachments: Seq<Attachment>,
    n: int,
    i: int,
    k: int,
    s: int,
)
    requires
        0 <= n <= attached.len(),
    ensures
        attached_modifiers(attached, attachments, n).len() == brought_by_attached(
            attached,
            attachments,
            n,
        ),
        0 <= i < n && attached_as(attached[i]@, attachments, k) && 0 <= s
            < attachments[k].modifiers@.len() ==> attached_modifiers(
            attached,
            attachments,
            n,
        ).contains(fixed_modifiers(attachments[k].modifiers@)[s]),
    decreases n,
{
    if n > 0 {
        lemma_attached_modifiers(attached, attachments, n - 1, i, k, s);
        let id = attached[n - 1]@;
        if known(attachments, id) {
            let j = choose|j: int| first_with_id(attachments, id, j);
            assert(attached_as(id, attachments, j));
            let c = choose|c: int| attached_as(id, attachments, c);
            assert(attached_as(id, attachments, c));
            assert(first_with_id(attachments, id, c));
            lemma_first_is_unique(attachments, id, c);
        } else if exists|c: int| attached_as(id, attachments, c) {
            let c = choose|c: int| attached_as(id, attachments, c);
            assert(first_with_id(attachments, id, c));
        }
        if 0 <= i < n && attached_as(attached[i]@, attachments, k) && 0 <= s
            < attachments[k].modifiers@.len() {
            let before = attached_modifiers(attached, attachments, n - 1);
            let m = fixed_modifiers(attachments[k].modifiers@)[s];
            let after = attached_modifiers(attached, attachments, n);
            if i == n - 1 {
                assert(first_with_id(attachments, id, k));
                lemma_first_is_unique(attachments, id, k);
                assert(after[before.len() + s] == m);
            } else {
                let j = choose|j: int| 0 <= j < before.len() && before[j] == m;
                assert(after[j] == m);
            }
        }
    }
}

proof fn lemma_modifiers_for(all: NamedModifiers, stat: Seq<char>, n: int, i: int)
    requires
        0 <= i < n <= all.len(),
        all[i].0 == stat,
    ensures
        modifiers_for(all, stat, n).contains(all[i].1),
    decreases n,
{
    let after = modifiers_for(all, stat, n);
    if i == n - 1 {
        assert(after[after.len() - 1] == all[i].1);
    } else {
        lemma_modifiers_for(all, stat, n - 1, i);
        let before = modifiers_for(all, stat, n - 1);
        let j = choose|j: int| 0 <= j < before.len() && before[j] == all[i].1;
        assert(after[j] == all[i].1);
    }
}

/// Every modifier of an item is counted in the entry of its stat.
proof fn lemma_counted(
    sheet: StatSheet,
    item: ItemInstance,
    base: BaseItem,
    affixes: Seq<Affix>,
    attachments: Seq<Attachment>,
    m: (Seq<char>, Modifier),
)
    requires
        is_sheet(sheet, item, base, affixes, attachments),
        item_modifiers(item, affixes, attachments).contains(m),
    ensures
        counts_in(sheet, m.0, m.1.kind, m.1.value),
{
    let all = item_modifiers(item, affixes, attachments);
    let i = choose|i: int| 0 <= i < all.len() && all[i] == m;
    assert(all[i].0 == m.0);
    assert(concerns(m.0, base.intrinsic_stats@, all));
    assert(has_entry(sheet.stats@, m.0));
    let e = choose|e: int|
        0 <= e < sheet.stats@.len() && (#[trigger] sheet.stats@[e]).stat@ == m.0;
    assert(entry_for(sheet.stats@[e], base.intrinsic_stats@, all));
    lemma_modifiers_for(all, m.0, all.len() as int, i);
    let mods = modifiers_for(all, m.0, all.len() as int);
    law_buckets_hold_their_kind(mods, m.1.kind, m.1.value);
    assert(m.1 == Modifier { kind: m.1.kind, value: m.1.value });
    assert(sheet.stats@[e].stat@ == m.0);
}

/// Every roll counts: each stat of the tier that a prefix or a suffix was rolled from, as
/// far as there are rolls, has an entry, and its roll is among those of its kind there.
pub proof fn law_every_roll_counts(
    sheet: StatSheet,
    item: ItemInstance,
    base: BaseItem,
    affixes: Seq<Affix>,
    attachments: Seq<Attachment>,
    i: int,
    r: RolledAffix,
    k: int,
    t: int,
    s: int,
)
    requires
        is_sheet(sheet, item, base, affixes, attachments),
        (0 <= i < item.prefixes@.len() && r == item.prefixes@[i]) || (0 <= i
            < item.suffixes@.len() && r == item.suffixes@[i]),
        rolled_from(r, affixes, k, t),
        0 <= s < affixes[k].tiers@[t].stats@.len(),
        s < r.rolls@.len(),
    ensures
        counts_in(
            sheet,
            affixes[k].tiers@[t].stats@[s].stat@,
            affixes[k].tiers@[t].stats@[s].kind,
            r.rolls@[s],
        ),
{
    lemma_source(r, affixes, k, t);
    let m = rolled_modifiers(r, affixes)[s];
    let np = item.prefixes@.len() as int;
    let ns = item.suffixes@.len() as int;
    let p = affix_modifiers(item.prefixes@, affixes, np);
    let q = affix_modifiers(item.suffixes@, affixes, ns);
    let all = item_modifiers(item, affixes, attachments);
    if 0 <= i < np && r == item.prefixes@[i] {
        lemma_affix_modifiers(item.prefixes@, affixes, np, i, s);
        let j = choose|j: int| 0 <= j < p.len() && p[j] == m;
        assert(all[j] == m);
    } else {
        lemma_affix_modifiers(item.suffixes@, affixes, ns, i, s);
        let j = choose|j: int| 0 <= j < q.len() && q[j] == m;
        assert(all[p.len() + j] == m);
    }
    lemma_counted(sheet, item, base, affixes, attachments, m);
}

/// Every attachment counts: each of its modifiers has an entry, and its value is among
/// those of its kind there.
pub proof fn law_every_attachment_counts(
    sheet: StatSheet,
    item: ItemInstance,
    base: BaseItem,
    affixes: Seq<Affix>,
    attachments: Seq<Attachment>,
    i: int,
    k: int,
    s: int,
)
    requires
        is_sheet(sheet, item, base, affixes, attachments),
        0 <= i < item.attached@.len(),
        attached_as(item.attached@[i]@, attachments, k),
        0 <= s < attachments[k].modifiers@.len(),
    ensures
        ({
            let m = attachments[k].modifiers@[s];
            counts_in(sheet, m.stat@, m.kind, Roll { min: m.value, max: m.value, draw: 0 })
        }),
{
    let n = item.attached@.len() as int;
    let a = attached_modifiers(item.attached@, attachments, n);
    lemma_attached_modifiers(item.attached@, attachments, n, i, k, s);
    let m = fixed_modifiers(attachments[k].modifiers@)[s];
    let all = item_modifiers(item, affixes, attachments);
    let j = choose|j: int| 0 <= j < a.len() && a[j] == m;
    assert(all[all.len() - a.len() + j] == m);
    lemma_counted(sheet, item, base, affixes, attachments, m);
}

proof fn lemma_intrinsics_for(all: Seq<IntrinsicStat>, stat: Seq<char>, n: int, i: int)
    requires
        0 <= i < n <= all.len(),
        all[i].stat@ == stat,
    ensures
        intrinsics_for(all, stat, n).contains(all[i].value),
    decreases n,
{
    let after = intrinsics_for(all, stat, n);
    if i == n - 1 {
        assert(after[after.len() - 1] == all[i].value);
    } else {
        lemma_intrinsics_for(all, stat, n - 1, i);
        let before = intrinsics_for(all, stat, n - 1);
        let j = choose|j: int| 0 <= j < before.len() && before[j] == all[i].value;
        assert(after[j] == all[i].value);
    }
}

/// Every intrinsic stat of the base counts: it has an entry, and its value is among those
/// of the base there.
pub proof fn law_every_intrinsic_counts(
    sheet: StatSheet,
    item: ItemInstance,
    base: BaseItem,
    affixes: Seq<Affix>,
    attachments: Seq<Attachment>,
    i: int,
)
    requires
        is_sheet(sheet, item, base, affixes, attachments),
        0 <= i < base.intrinsic_stats@.len(),
    ensures
        exists|e: int|
            0 <= e < sheet.stats@.len() && (#[trigger] sheet.stats@[e]).stat@
                == base.intrinsic_stats@[i].stat@ && sheet.stats@[e].terms.base@.contains(
                base.intrinsic_stats@[i].value,
            ),
{
    let all = item_modifiers(item, affixes, attachments);
    let stat = base.intrinsic_stats@[i].stat@;
    assert(concerns(stat, base.intrinsic_stats@, all));
    assert(has_entry(sheet.stats@, stat));
    let e = choose|e: int|
        0 <= e < sheet.stats@.len() && (#[trigger] sheet.stats@[e]).stat@ == stat;
    assert(entry_for(sheet.stats@[e], base.intrinsic_stats@, all));
    lemma_intrinsics_for(base.intrinsic_stats@, stat, base.intrinsic_stats@.len() as int, i);
    assert(sheet.stats@[e].stat@ == stat);
}

/// How often a name occurs among the first `n`.
spec fn occurrences(names: Seq<Seq<char>>, name: Seq<char>, n: int) -> int
    decreases n,
{
    if n <= 0 {
        0
    } else {
        occurrences(names, name, n - 1) + if names[n - 1] == name {
            1int
        } else {
            0
        }
    }
}

/// How often the names of the first `m` entries occur among the first `n` names.
spec fn all_occurrences(entries: Seq<StatTerms>, names: Seq<Seq<char>>, n: int, m: int) -> int
    decreases m,
{
    if m <= 0 {
        0
    } else {
        all_occurrences(entries, names, n, m - 1) + occurrences(names, entries[m - 1].stat@, n)
    }
}

/// One more name occurs in one entry.
proof fn lemma_one_more(entries: Seq<StatTerms>, names: Seq<Seq<char>>, n: int, m: int, e: int)
    requires
        0 < n <= names.len(),
        0 <= m <= entries.len(),
        0 <= e < entries.len(),
        stats_distinct(entries),
        entries[e].stat@ == names[n - 1],
    ensures
        all_occurrences(entries, names, n, m) == all_occurrences(entries, names, n - 1, m) + if e
            < m {
            1int
        } else {
            0
        },
    decreases m,
{
    if m > 0 {
        lemma_one_more(entries, names, n, m - 1, e);
        if m - 1 < e {
            assert(entries[m - 1].stat@ != entries[e].stat@);
        } else if e < m - 1 {
            assert(entries[e].stat@ != entries[m - 1].stat@);
        }
    }
}

proof fn lemma_no_occurrences(entries: Seq<StatTerms>, names: Seq<Seq<char>>, m: int)
    requires
        0 <= m,
    ensures
        all_occurrences(entries, names, 0, m) == 0,
    decreases m,
{
    if m > 0 {
        lemma_no_occurrences(entries, names, m - 1);
    }
}

/// Where every name has one entry, the entries hold every name.
proof fn lemma_all_occurrences(entries: Seq<StatTerms>, names: Seq<Seq<char>>, n: int)
    requires
        0 <= n <= names.len(),
        stats_distinct(entries),
        forall|i: int| 0 <= i < names.len() ==> has_entry(entries, #[trigger] names[i]),
    ensures
        all_occurrences(entries, names, n, entries.len() as int) == n,
    decreases n,
{
    if n > 0 {
        lemma_all_occurrences(entries, names, n - 1);
        assert(has_entry(entries, names[n - 1]));
        let e = choose|e: int|
            0 <= e < entries.len() && (#[trigger] entries[e]).stat@ == names[n - 1];
        lemma_one_more(entries, names, n, entries.len() as int, e);
    } else {
        lemma_no_occurrences(entries, names, entries.len() as int);
    }
}

proof fn lemma_count_modifiers(all: NamedModifiers, names: Seq<Seq<char>>, stat: Seq<char>, n: int)
    requires
        0 <= n <= all.len(),
        names == all.map_values(|m: (Seq<char>, Modifier)| m.0),
    ensures
        modifiers_for(all, stat, n).len() == occurrences(names, stat, n),
    decreases n,
{
    if n > 0 {
        lemma_count_modifiers(all, names, stat, n - 1);
    }
}

proof fn lemma_count_intrinsics(
    all: Seq<IntrinsicStat>,
    names: Seq<Seq<char>>,
    stat: Seq<char>,
    n: int,
)
    requires
        0 <= n <= all.len(),
        names == all.map_values(|m: IntrinsicStat| m.stat@),
    ensures
        intrinsics_for(all, stat, n).len() == occurrences(names, stat, n),
    decreases n,
{
    if n > 0 {
        lemma_count_intrinsics(all, names, stat, n - 1);
    }
}

proof fn lemma_held_by(
    entries: Seq<StatTerms>,
    intrinsics: Seq<IntrinsicStat>,
    all: NamedModifiers,
    mods: Seq<Seq<char>>,
    bases: Seq<Seq<char>>,
    m: int,
)
    requires
        0 <= m <= entries.len(),
        mods == all.map_values(|m: (Seq<char>, Modifier)| m.0),
        bases == intrinsics.map_values(|m: IntrinsicStat| m.stat@),
        forall|e: int|
            0 <= e < entries.len() ==> entry_for(#[trigger] entries[e], intrinsics, all),
    ensures
        held_by(entries, m) == all_occurrences(entries, mods, all.len() as int, m),
        bases_of(entries, m) == all_occurrences(entries, bases, intrinsics.len() as int, m),
    decreases m,
{
    if m > 0 {
        lemma_held_by(entries, intrinsics, all, mods, bases, m - 1);
        let e = entries[m - 1];
        assert(entry_for(e, intrinsics, all));
        lemma_count_modifiers(all, mods, e.stat@, all.len() as int);
        lemma_count_intrinsics(intrinsics, bases, e.stat@, intrinsics.len() as int);
        law_buckets_partition(modifiers_for(all, e.stat@, all.len() as int));
    }
}

/// Nothing is counted twice, and nothing else is counted: the entries of a sheet are for
/// different stats, and together they hold as many modifiers as the prefixes, the suffixes
/// and the attachments of the item bring, and as many values as the base has.
pub proof fn law_nothing_counts_twice(
    sheet: StatSheet,
    item: ItemInstance,
    base: BaseItem,
    affixes: Seq<Affix>,
    attachments: Seq<Attachment>,
    i: int,
    j: int,
)
    requires
        is_sheet(sheet, item, base, affixes, attachments),
    ensures
        0 <= i < j < sheet.stats@.len() ==> sheet.stats@[i].stat@ != sheet.stats@[j].stat@,
        held_by(sheet.stats@, sheet.stats@.len() as int) == brought_by_affixes(
            item.prefixes@,
            affixes,
            item.prefixes@.len() as int,
        ) + brought_by_affixes(item.suffixes@, affixes, item.suffixes@.len() as int)
            + brought_by_attached(item.attached@, attachments, item.attached@.len() as int),
        bases_of(sheet.stats@, sheet.stats@.len() as int) == base.intrinsic_stats@.len(),
{
    let entries = sheet.stats@;
    let all = item_modifiers(item, affixes, attachments);
    let intrinsics = base.intrinsic_stats@;
    let mods = all.map_values(|m: (Seq<char>, Modifier)| m.0);
    let bases = intrinsics.map_values(|m: IntrinsicStat| m.stat@);
    lemma_affix_modifiers(item.prefixes@, affixes, item.prefixes@.len() as int, -1, 0);
    lemma_affix_modifiers(item.suffixes@, affixes, item.suffixes@.len() as int, -1, 0);
    lemma_attached_modifiers(item.attached@, attachments, item.attached@.len() as int, -1, 0, 0);
    lemma_held_by(entries, intrinsics, all, mods, bases, entries.len() as int);
    assert forall|i: int| 0 <= i < mods.len() implies has_entry(entries, #[trigger] mods[i]) by {
        assert(all[i].0 == mods[i]);
        assert(concerns(mods[i], intrinsics, all));
    }
    assert forall|i: int| 0 <= i < bases.len() implies has_entry(entries, #[trigger] bases[i]) by {
        assert(intrinsics[i].stat@ == bases[i]);
        assert(concerns(bases[i], intrinsics, all));
    }
    lemma_all_occurrences(entries, mods, mods.len() as int);
    lemma_all_occurrences(entries, bases, bases.len() as int);
}

/// Each upgrade makes everything on a sheet 8 percent of the fresh item's output stronger,
/// up to the fifth; further ones change nothing.
pub proof fn law_upgrades_scale_the_sheet(
    sheet: StatSheet,
    upgraded: StatSheet,
    item: ItemInstance,
    better: ItemInstance,
    base: BaseItem,
    affixes: Seq<Affix>,
    attachments: Seq<Attachment>,
)
    requires
        is_sheet(sheet, item, base, affixes, attachments),
        is_sheet(upgraded, better, base, affixes, attachments),
        better.upgrade_tier == item.upgrade_tier + 1,
    ensures
        item.upgrade_tier == 0 ==> sheet.scale_percent == 100,
        item.upgrade_tier < 5 ==> upgraded.scale_percent == sheet.scale_percent + 8,
        item.upgrade_tier >= 5 ==> upgraded.scale_percent == sheet.scale_percent,
{
}

} // verus!
