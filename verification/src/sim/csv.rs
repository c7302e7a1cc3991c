//! The simulator's row-by-row output: one line of comma-separated values for each drop.

use vstd::prelude::*;

use crate::rules::item::{ItemInstance, RolledAffix};
use crate::text::{
    decimal, decimal_text, join, joined, law_digits_spell_the_number, spelled, texts,
};

verus! {

/// The names of the columns.
pub open spec fn heading_text() -> Seq<char> {
    "kill,rarity,base,ilvl,n_affixes,dps_estimate,ttk_estimate,affixes"@
}

pub fn heading() -> (s: &'static str)
    ensures
        s@ == heading_text(),
{
    "kill,rarity,base,ilvl,n_affixes,dps_estimate,ttk_estimate,affixes"
}

/// An affix by tier and id, with the values that it rolled.
pub open spec fn affix_text(a: RolledAffix, rolls: Seq<Seq<char>>) -> Seq<char> {
    let name = "T"@ + decimal(a.tier as nat) + "_"@ + a.affix_id@;
    if rolls.len() > 0 {
        name + ":"@ + joined(rolls, "/"@)
    } else {
        name
    }
}

/// An affix as it stands in a row. The rolled values come written out.
pub fn write_affix(a: &RolledAffix, rolls: &Vec<String>) -> (s: String)
    ensures
        s@ == affix_text(*a, texts(rolls@)),
{
    let mut s = String::new();
    s.append("T");
    s.append(decimal_text(a.tier as u64).as_str());
    s.append("_");
    s.append(a.affix_id.as_str());
    if rolls.len() > 0 {
        s.append(":");
        s.append(join(rolls, "/").as_str());
    }
    assert(s@ =~= affix_text(*a, texts(rolls@)));
    s
}

/// The affixes of an item, prefixes first.
pub open spec fn affixes_of(item: ItemInstance) -> Seq<RolledAffix> {
    item.prefixes@ + item.suffixes@
}

/// The texts of the affixes.
pub open spec fn affix_cells(affixes: Seq<RolledAffix>, rolls: Seq<Vec<String>>) -> Seq<
    Seq<char>,
> {
    Seq::new(affixes.len(), |i: int| affix_text(affixes[i], texts(rolls[i]@)))
}

/// The row of a drop.
pub open spec fn row_text(
    kill: u32,
    item: ItemInstance,
    dps: Seq<char>,
    ttk: Seq<char>,
    rolls: Seq<Vec<String>>,
) -> Seq<char> {
    joined(
        seq![
            decimal(kill as nat),
            item.rarity.label(),
            item.base@,
            decimal(item.ilvl as nat),
            decimal(affixes_of(item).len()),
            dps,
            ttk,
            joined(affix_cells(affixes_of(item), rolls), "|"@),
        ],
        ","@,
    )
}

/// The row of a drop, without the line end. The estimates and, for each affix, the rolled
/// values come written out.
pub fn write_row(
    kill: u32,
    item: &ItemInstance,
    dps: &String,
    ttk: &String,
    rolls: &Vec<Vec<String>>,
) -> (s: String)
    requires
        rolls.len() == item.prefixes.len() + item.suffixes.len(),
    ensures
        s@ == row_text(kill, *item, dps@, ttk@, rolls@),
{
    let n: usize = rolls.len();
    let first: usize = item.prefixes.len();
    let ghost all = affix_cells(affixes_of(*item), rolls@);
    let mut cells: Vec<String> = Vec::new();
    for i in 0..n
        invariant
            n == rolls.len(),
            n == item.prefixes.len() + item.suffixes.len(),
            first == item.prefixes.len(),
            all == affix_cells(affixes_of(*item), rolls@),
            cells.len() == i,
            forall|k: int| 0 <= k < i ==> (#[trigger] cells@[k])@ == all[k],
    {
        if i < first {
            cells.push(write_affix(&item.prefixes[i], &rolls[i]));
        } else {
            cells.push(write_affix(&item.suffixes[i - first], &rolls[i]));
        }
    }
    assert(texts(cells@) =~= all);
    let columns: Vec<String> = vec![
        decimal_text(kill as u64),
        item.rarity.name().to_owned(),
        item.base.clone(),
        decimal_text(item.ilvl as u64),
        decimal_text(n as u64),
        dps.clone(),
        ttk.clone(),
        join(&cells, "|"),
    ];
    assert(texts(columns@) =~= seq![
        decimal(kill as nat),
        item.rarity.label(),
        item.base@,
        decimal(item.ilvl as nat),
        decimal(affixes_of(*item).len()),
        dps@,
        ttk@,
        joined(all, "|"@),
    ]);
    join(&columns, ",")
}

/// What stands in a row: eight columns between commas. The first is the number of the kill,
/// then come the rarity, the base, the level, how many affixes there are, the two estimates,
/// and the affixes between bars, prefixes first. Each affix is named by its tier and id, and
/// then by what it rolled.
pub proof fn law_rows_of_values(
    kill: u32,
    item: ItemInstance,
    dps: Seq<char>,
    ttk: Seq<char>,
    rolls: Seq<Vec<String>>,
    i: int,
)
    requires
        rolls.len() == item.prefixes@.len() + item.suffixes@.len(),
    ensures
        exists|columns: Seq<Seq<char>>, cells: Seq<Seq<char>>|
            #![trigger joined(columns, ","@), joined(cells, "|"@)]
            {
                let n = item.prefixes@.len();
                let affix = if i < n {
                    item.prefixes@[i]
                } else {
                    item.suffixes@[i - n]
                };
                &&& row_text(kill, item, dps, ttk, rolls) == joined(columns, ","@)
                &&& columns.len() == 8
                &&& spelled(columns[0], 10) == kill
                &&& columns[1] == item.rarity.label()
                &&& columns[2] == item.base@
                &&& spelled(columns[3], 10) == item.ilvl
                &&& spelled(columns[4], 10) == item.prefixes@.len() + item.suffixes@.len()
                &&& columns[5] == dps
                &&& columns[6] == ttk
                &&& columns[7] == joined(cells, "|"@)
                &&& cells.len() == item.prefixes@.len() + item.suffixes@.len()
                &&& 0 <= i < cells.len() ==> {
                    let name = seq!['T'] + decimal(affix.tier as nat) + seq!['_'] + affix.affix_id@;
                    let values = texts(rolls[i]@);
                    cells[i] == if values.len() == 0 {
                        name
                    } else {
                        name + seq![':'] + joined(values, "/"@)
                    }
                }
            },
{
    let cells = affix_cells(affixes_of(item), rolls);
    let columns = seq![
        decimal(kill as nat),
        item.rarity.label(),
        item.base@,
        decimal(item.ilvl as nat),
        decimal(affixes_of(item).len()),
        dps,
        ttk,
        joined(cells, "|"@),
    ];
    law_digits_spell_the_number(kill as nat);
    law_digits_spell_the_number(item.ilvl as nat);
    law_digits_spell_the_number(affixes_of(item).len());
    reveal_strlit("T");
    reveal_strlit("_");
    reveal_strlit(":");
    assert("T"@ =~= seq!['T']);
    assert("_"@ =~= seq!['_']);
    assert(":"@ =~= seq![':']);
    assert(row_text(kill, item, dps, ttk, rolls) == joined(columns, ","@));
    assert(columns[7] == joined(cells, "|"@));
}

} // verus!
