//! The simulator's tables: by rarity, by base and by affix tier.

use vstd::prelude::*;

use crate::rules::item::Rarity;
use crate::sim::summary::{AffixTierSum, BaseSum, RaritySum, Summary};
use crate::text::{
    decimal, decimal_text, join, joined, law_columns, law_digits_spell_the_number, left,
    left_aligned, right, right_aligned, spelled, texts,
};

verus! {

/// The figures of a rarity, written out.
#[derive(Debug)]
pub struct RarityCells {
    pub pct: String,
    pub avg_affixes: String,
}

/// The figures of a base, written out. The times to kill are looked at only where there
/// are any.
#[derive(Debug)]
pub struct BaseCells {
    pub pct: String,
    pub avg_dps: String,
    pub avg_ttk: String,
    pub ttk_by_rarity: Vec<String>,
}

/// The figures of an affix tier, written out.
#[derive(Debug)]
pub struct AffixCells {
    pub avg_roll: String,
    pub min: String,
    pub max: String,
    pub fill: String,
}

/// The figures of all tables, row by row.
#[derive(Debug)]
pub struct Cells {
    pub rarities: Vec<RarityCells>,
    pub bases: Vec<BaseCells>,
    pub affixes: Vec<AffixCells>,
}

/// The rarity with the given rank.
pub open spec fn ranked(i: int) -> Rarity {
    if i == 0 {
        Rarity::Basic
    } else if i == 1 {
        Rarity::Common
    } else if i == 2 {
        Rarity::Rare
    } else if i == 3 {
        Rarity::Epic
    } else {
        Rarity::Legendary
    }
}

fn rarity_at(i: usize) -> (r: Rarity)
    ensures
        r == ranked(i as int),
{
    if i == 0 {
        Rarity::Basic
    } else if i == 1 {
        Rarity::Common
    } else if i == 2 {
        Rarity::Rare
    } else if i == 3 {
        Rarity::Epic
    } else {
        Rarity::Legendary
    }
}

/// What the figures are of.
pub open spec fn run_line(seed: u64, ilvl: u32, drops: u32) -> Seq<char> {
    "seed: "@ + decimal(seed as nat) + "  ilvl: "@ + decimal(ilvl as nat) + "  drops: "@ + decimal(
        drops as nat,
    )
}

pub open spec fn rarity_heading() -> Seq<char> {
    joined(
        seq![
            left_aligned("Rarity"@, 10),
            right_aligned("count"@, 8),
            right_aligned("pct"@, 8),
            right_aligned("avg_affixes"@, 14),
        ],
        " "@,
    )
}

pub open spec fn rarity_row(rarity: Rarity, sum: RaritySum, cells: RarityCells) -> Seq<char> {
    joined(
        seq![
            left_aligned(rarity.label(), 10),
            right_aligned(decimal(sum.count as nat), 8),
            right_aligned(cells.pct@, 7).push('%'),
            right_aligned(cells.avg_affixes@, 14),
        ],
        " "@,
    )
}

pub open spec fn base_heading() -> Seq<char> {
    joined(
        seq![
            left_aligned("Base"@, 20),
            right_aligned("count"@, 8),
            right_aligned("pct"@, 8),
            right_aligned("avg_dps"@, 10),
            right_aligned("avg_ttk"@, 10),
        ],
        " "@,
    )
}

pub open spec fn base_row(sum: BaseSum, cells: BaseCells) -> Seq<char> {
    joined(
        seq![
            left_aligned(sum.base@, 20),
            right_aligned(decimal(sum.dps.len() as nat), 8),
            right_aligned(cells.pct@, 7).push('%'),
            right_aligned(cells.avg_dps@, 10),
            right_aligned(
                if sum.ttk.len() > 0 {
                    cells.avg_ttk@
                } else {
                    "—"@
                },
                10,
            ),
        ],
        " "@,
    )
}

pub open spec fn ttk_heading() -> Seq<char> {
    joined(
        seq![left_aligned("TTK by rarity"@, 20)] + Seq::new(
            5,
            |i: int| right_aligned(ranked(i).label(), 10),
        ),
        " "@,
    )
}

pub open spec fn ttk_row(sum: BaseSum, cells: BaseCells) -> Seq<char> {
    joined(
        seq![left_aligned(sum.base@, 20)] + Seq::new(
            5,
            |i: int|
                if sum.ttk_by_rarity@[i].len() > 0 {
                    right_aligned(cells.ttk_by_rarity@[i]@, 9).push('s')
                } else {
                    right_aligned("—"@, 10)
                },
        ),
        " "@,
    )
}

/// The rows of those among the first `n` bases that have times to kill.
pub open spec fn ttk_rows(sums: Seq<BaseSum>, cells: Seq<BaseCells>, n: int) -> Seq<Seq<char>>
    decreases n,
{
    if n <= 0 {
        Seq::empty()
    } else if sums[n - 1].ttk.len() > 0 {
        ttk_rows(sums, cells, n - 1).push(ttk_row(sums[n - 1], cells[n - 1]))
    } else {
        ttk_rows(sums, cells, n - 1)
    }
}

/// The table of the times to kill, with an empty line after it; nothing where there are no
/// times to kill.
pub open spec fn ttk_table(sums: Seq<BaseSum>, cells: Seq<BaseCells>) -> Seq<Seq<char>> {
    let rows = ttk_rows(sums, cells, sums.len() as int);
    if rows.len() > 0 {
        seq![ttk_heading()] + rows + seq![Seq::empty()]
    } else {
        Seq::empty()
    }
}

pub open spec fn affix_heading() -> Seq<char> {
    joined(
        seq![
            left_aligned("Affix"@, 24),
            right_aligned("tier"@, 4),
            right_aligned("count"@, 8),
            right_aligned("avg_roll"@, 10),
            right_aligned("theoretical_range"@, 19),
            right_aligned("fill_pct"@, 10),
        ],
        " "@,
    )
}

pub open spec fn affix_row(sum: AffixTierSum, cells: AffixCells) -> Seq<char> {
    joined(
        seq![
            left_aligned(sum.affix_id@, 24),
            "T"@ + left_aligned(decimal(sum.tier as nat), 3),
            right_aligned(decimal(sum.count as nat), 8),
            right_aligned(cells.avg_roll@, 10),
            ("["@ + right_aligned(cells.min@, 7)).push(','),
            right_aligned(cells.max@, 7).push(']'),
            right_aligned(cells.fill@, 9).push('%'),
        ],
        " "@,
    )
}

/// All lines.
pub open spec fn report_lines(sum: Summary, seed: u64, ilvl: u32, cells: Cells) -> Seq<Seq<char>> {
    seq!["=== head2box-sim summary ==="@, run_line(seed, ilvl, sum.drops), Seq::empty()]
        + seq![rarity_heading()]
        + Seq::new(5, |i: int| rarity_row(ranked(i), sum.rarities@[i], cells.rarities@[i]))
        + seq![Seq::empty(), base_heading()]
        + Seq::new(sum.by_base@.len(), |i: int| base_row(sum.by_base@[i], cells.bases@[i]))
        + seq![Seq::empty()]
        + ttk_table(sum.by_base@, cells.bases@)
        + seq![affix_heading()]
        + Seq::new(
            sum.by_affix_tier@.len(),
            |i: int| affix_row(sum.by_affix_tier@[i], cells.affixes@[i]),
        )
}

fn line_of_run(seed: u64, ilvl: u32, drops: u32) -> (s: String)
    ensures
        s@ == run_line(seed, ilvl, drops),
{
    let mut s = String::new();
    s.append("seed: ");
    s.append(decimal_text(seed).as_str());
    s.append("  ilvl: ");
    s.append(decimal_text(ilvl as u64).as_str());
    s.append("  drops: ");
    s.append(decimal_text(drops as u64).as_str());
    assert(s@ =~= run_line(seed, ilvl, drops));
    s
}

/// A right-aligned figure with a unit behind it.
fn right_unit(text: &str, width: usize, unit: char) -> (s: String)
    ensures
        s@ == right_aligned(text@, width as int).push(unit),
{
    let mut s = right(text, width);
    s.push(unit);
    s
}

fn line_of_rarity_heading() -> (s: String)
    ensures
        s@ == rarity_heading(),
{
    let columns: Vec<String> = vec![
        left("Rarity", 10),
        right("count", 8),
        right("pct", 8),
        right("avg_affixes", 14),
    ];
    assert(texts(columns@) =~= seq![
        left_aligned("Rarity"@, 10),
        right_aligned("count"@, 8),
        right_aligned("pct"@, 8),
        right_aligned("avg_affixes"@, 14),
    ]);
    join(&columns, " ")
}

fn line_of_rarity(rarity: Rarity, sum: &RaritySum, cells: &RarityCells) -> (s: String)
    ensures
        s@ == rarity_row(rarity, *sum, *cells),
{
    let columns: Vec<String> = vec![
        left(rarity.name(), 10),
        right(decimal_text(sum.count as u64).as_str(), 8),
        right_unit(cells.pct.as_str(), 7, '%'),
        right(cells.avg_affixes.as_str(), 14),
    ];
    assert(texts(columns@) =~= seq![
        left_aligned(rarity.label(), 10),
        right_aligned(decimal(sum.count as nat), 8),
        right_aligned(cells.pct@, 7).push('%'),
        right_aligned(cells.avg_affixes@, 14),
    ]);
    join(&columns, " ")
}

fn line_of_base_heading() -> (s: String)
    ensures
        s@ == base_heading(),
{
    let columns: Vec<String> = vec![
        left("Base", 20),
        right("count", 8),
        right("pct", 8),
        right("avg_dps", 10),
        right("avg_ttk", 10),
    ];
    assert(texts(columns@) =~= seq![
        left_aligned("Base"@, 20),
        right_aligned("count"@, 8),
        right_aligned("pct"@, 8),
        right_aligned("avg_dps"@, 10),
        right_aligned("avg_ttk"@, 10),
    ]);
    join(&columns, " ")
}

fn line_of_base(sum: &BaseSum, cells: &BaseCells) -> (s: String)
    ensures
        s@ == base_row(*sum, *cells),
{
    let ttk: &str = if sum.ttk.len() > 0 {
        cells.avg_ttk.as_str()
    } else {
        "—"
    };
    let columns: Vec<String> = vec![
        left(sum.base.as_str(), 20),
        right(decimal_text(sum.dps.len() as u64).as_str(), 8),
        right_unit(cells.pct.as_str(), 7, '%'),
        right(cells.avg_dps.as_str(), 10),
        right(ttk, 10),
    ];
    assert(texts(columns@) =~= seq![
        left_aligned(sum.base@, 20),
        right_aligned(decimal(sum.dps.len() as nat), 8),
        right_aligned(cells.pct@, 7).push('%'),
        right_aligned(cells.avg_dps@, 10),
        right_aligned(ttk@, 10),
    ]);
    join(&columns, " ")
}

fn line_of_ttk_heading() -> (s: String)
    ensures
        s@ == ttk_heading(),
{
    let mut columns: Vec<String> = Vec::new();
    columns.push(left("TTK by rarity", 20));
    for i in 0..5usize
        invariant
            columns.len() == i + 1,
            columns@[0]@ == left_aligned("TTK by rarity"@, 20),
            forall|k: int|
                0 <= k < i ==> (#[trigger] columns@[k + 1])@ == right_aligned(ranked(k).label(), 10),
    {
        columns.push(right(rarity_at(i).name(), 10));
    }
    let ghost want = seq![left_aligned("TTK by rarity"@, 20)] + Seq::new(
        5,
        |i: int| right_aligned(ranked(i).label(), 10),
    );
    assert forall|k: int| 0 <= k < 6 implies texts(columns@)[k] == want[k] by {
        if k > 0 {
            assert(columns@[(k - 1) + 1]@ == right_aligned(ranked(k - 1).label(), 10));
        }
    }
    assert(texts(columns@) =~= want);
    join(&columns, " ")
}

fn line_of_ttk(sum: &BaseSum, cells: &BaseCells) -> (s: String)
    requires
        sum.ttk_by_rarity.len() == 5,
        cells.ttk_by_rarity.len() == 5,
    ensures
        s@ == ttk_row(*sum, *cells),
{
    let ghost want = seq![left_aligned(sum.base@, 20)] + Seq::new(
        5,
        |i: int|
            if sum.ttk_by_rarity@[i].len() > 0 {
                right_aligned(cells.ttk_by_rarity@[i]@, 9).push('s')
            } else {
                right_aligned("—"@, 10)
            },
    );
    let mut columns: Vec<String> = Vec::new();
    columns.push(left(sum.base.as_str(), 20));
    for i in 0..5usize
        invariant
            sum.ttk_by_rarity.len() == 5,
            cells.ttk_by_rarity.len() == 5,
            columns.len() == i + 1,
            want == seq![left_aligned(sum.base@, 20)] + Seq::new(
                5,
                |i: int|
                    if sum.ttk_by_rarity@[i].len() > 0 {
                        right_aligned(cells.ttk_by_rarity@[i]@, 9).push('s')
                    } else {
                        right_aligned("—"@, 10)
                    },
            ),
            forall|k: int| 0 <= k <= i ==> (#[trigger] columns@[k])@ == want[k],
    {
        if sum.ttk_by_rarity[i].len() > 0 {
            columns.push(right_unit(cells.ttk_by_rarity[i].as_str(), 9, 's'));
        } else {
            columns.push(right("—", 10));
        }
    }
    assert(texts(columns@) =~= want);
    join(&columns, " ")
}

fn line_of_affix_heading() -> (s: String)
    ensures
        s@ == affix_heading(),
{
    let columns: Vec<String> = vec![
        left("Affix", 24),
        right("tier", 4),
        right("count", 8),
        right("avg_roll", 10),
        right("theoretical_range", 19),
        right("fill_pct", 10),
    ];
    assert(texts(columns@) =~= seq![
        left_aligned("Affix"@, 24),
        right_aligned("tier"@, 4),
        right_aligned("count"@, 8),
        right_aligned("avg_roll"@, 10),
        right_aligned("theoretical_range"@, 19),
        right_aligned("fill_pct"@, 10),
    ]);
    join(&columns, " ")
}

fn line_of_affix(sum: &AffixTierSum, cells: &AffixCells) -> (s: String)
    ensures
        s@ == affix_row(*sum, *cells),
{
    let mut tier = String::new();
    tier.append("T");
    tier.append(left(decimal_text(sum.tier as u64).as_str(), 3).as_str());
    let mut min = String::new();
    min.append("[");
    min.append(right(cells.min.as_str(), 7).as_str());
    min.push(',');
    assert(tier@ =~= "T"@ + left_aligned(decimal(sum.tier as nat), 3));
    assert(min@ =~= ("["@ + right_aligned(cells.min@, 7)).push(','));
    let columns: Vec<String> = vec![
        left(sum.affix_id.as_str(), 24),
        tier,
        right(decimal_text(sum.count as u64).as_str(), 8),
        right(cells.avg_roll.as_str(), 10),
        min,
        right_unit(cells.max.as_str(), 7, ']'),
        right_unit(cells.fill.as_str(), 9, '%'),
    ];
    assert(texts(columns@) =~= seq![
        left_aligned(sum.affix_id@, 24),
        "T"@ + left_aligned(decimal(sum.tier as nat), 3),
        right_aligned(decimal(sum.count as nat), 8),
        right_aligned(cells.avg_roll@, 10),
        ("["@ + right_aligned(cells.min@, 7)).push(','),
        right_aligned(cells.max@, 7).push(']'),
        right_aligned(cells.fill@, 9).push('%'),
    ]);
    join(&columns, " ")
}

impl Cells {
    /// Whether there are figures for each row.
    pub open spec fn cover(self, sum: Summary) -> bool {
        &&& self.rarities.len() == 5
        &&& self.bases.len() == sum.by_base.len()
        &&& forall|i: int|
            0 <= i < self.bases.len() ==> (#[trigger] self.bases@[i]).ttk_by_rarity.len() == 5
        &&& self.affixes.len() == sum.by_affix_tier.len()
    }
}

/// The rows of the bases that have times to kill.
fn lines_of_ttk(sums: &Vec<BaseSum>, cells: &Vec<BaseCells>) -> (rows: Vec<String>)
    requires
        cells.len() == sums.len(),
        forall|i: int| 0 <= i < sums.len() ==> (#[trigger] sums@[i]).ttk_by_rarity.len() == 5,
        forall|i: int| 0 <= i < cells.len() ==> (#[trigger] cells@[i]).ttk_by_rarity.len() == 5,
    ensures
        texts(rows@) == ttk_rows(sums@, cells@, sums.len() as int),
{
    let mut rows: Vec<String> = Vec::new();
    assert(texts(rows@) =~= Seq::empty());
    for i in 0..sums.len()
        invariant
            cells.len() == sums.len(),
            forall|i: int| 0 <= i < sums.len() ==> (#[trigger] sums@[i]).ttk_by_rarity.len() == 5,
            forall|i: int|
                0 <= i < cells.len() ==> (#[trigger] cells@[i]).ttk_by_rarity.len() == 5,
            texts(rows@) == ttk_rows(sums@, cells@, i as int),
    {
        if sums[i].ttk.len() > 0 {
            let ghost before = rows@;
            rows.push(line_of_ttk(&sums[i], &cells[i]));
            assert(texts(rows@) =~= texts(before).push(
                ttk_row(sums@[i as int], cells@[i as int]),
            ));
        }
    }
    rows
}

/// Appends some lines.
fn push_lines(lines: &mut Vec<String>, more: Vec<String>)
    ensures
        texts(final(lines)@) == texts(old(lines)@) + texts(more@),
{
    let mut more = more;
    let ghost all = more@;
    lines.append(&mut more);
    assert(texts(lines@) =~= texts(old(lines)@) + texts(all));
}

impl Summary {
    /// The tables, line by line. The figures come written out.
    pub fn print(&self, seed: u64, ilvl: u32, cells: &Cells) -> (lines: Vec<String>)
        requires
            self.wf(),
            cells.cover(*self),
        ensures
            texts(lines@) == report_lines(*self, seed, ilvl, *cells),
    {
        let mut lines: Vec<String> = vec![
            "=== head2box-sim summary ===".to_owned(),
            line_of_run(seed, ilvl, self.drops),
            String::new(),
            line_of_rarity_heading(),
        ];
        let ghost head = seq![
            "=== head2box-sim summary ==="@,
            run_line(seed, ilvl, self.drops),
            Seq::empty(),
        ] + seq![rarity_heading()];
        assert(texts(lines@) =~= head);
        let ghost rarities = Seq::new(
            5,
            |i: int| rarity_row(ranked(i), self.rarities@[i], cells.rarities@[i]),
        );
        let mut more: Vec<String> = Vec::new();
        for i in 0..5usize
            invariant
                self.rarities.len() == 5,
                cells.rarities.len() == 5,
                rarities.len() == 5,
                forall|k: int|
                    0 <= k < 5 ==> #[trigger] rarities[k] == rarity_row(
                        ranked(k),
                        self.rarities@[k],
                        cells.rarities@[k],
                    ),
                more.len() == i,
                forall|k: int| 0 <= k < i ==> (#[trigger] more@[k])@ == rarities[k],
        {
            more.push(line_of_rarity(rarity_at(i), &self.rarities[i], &cells.rarities[i]));
        }
        assert(texts(more@) =~= rarities);
        push_lines(&mut lines, more);

        let more: Vec<String> = vec![String::new(), line_of_base_heading()];
        assert(texts(more@) =~= seq![Seq::empty(), base_heading()]);
        push_lines(&mut lines, more);

        let ghost bases = Seq::new(
            self.by_base@.len(),
            |i: int| base_row(self.by_base@[i], cells.bases@[i]),
        );
        let mut more: Vec<String> = Vec::new();
        for i in 0..self.by_base.len()
            invariant
                cells.bases.len() == self.by_base.len(),
                bases.len() == self.by_base.len(),
                forall|k: int|
                    0 <= k < bases.len() ==> #[trigger] bases[k] == base_row(
                        self.by_base@[k],
                        cells.bases@[k],
                    ),
                more.len() == i,
                forall|k: int| 0 <= k < i ==> (#[trigger] more@[k])@ == bases[k],
        {
            more.push(line_of_base(&self.by_base[i], &cells.bases[i]));
        }
        assert(texts(more@) =~= bases);
        push_lines(&mut lines, more);

        let more: Vec<String> = vec![String::new()];
        assert(texts(more@) =~= seq![Seq::empty()]);
        push_lines(&mut lines, more);

        let ghost sofar = texts(lines@);
        let rows = lines_of_ttk(&self.by_base, &cells.bases);
        let ghost table = ttk_table(self.by_base@, cells.bases@);
        if rows.len() > 0 {
            assert(texts(rows@).len() > 0);
            let more: Vec<String> = vec![line_of_ttk_heading()];
            assert(texts(more@) =~= seq![ttk_heading()]);
            push_lines(&mut lines, more);
            push_lines(&mut lines, rows);
            let more: Vec<String> = vec![String::new()];
            assert(texts(more@) =~= seq![Seq::empty()]);
            push_lines(&mut lines, more);
        } else {
            assert(texts(rows@).len() == 0);
        }
        assert(texts(lines@) =~= sofar + table);

        let more: Vec<String> = vec![line_of_affix_heading()];
        assert(texts(more@) =~= seq![affix_heading()]);
        push_lines(&mut lines, more);

        let ghost affixes = Seq::new(
            self.by_affix_tier@.len(),
            |i: int| affix_row(self.by_affix_tier@[i], cells.affixes@[i]),
        );
        let mut more: Vec<String> = Vec::new();
        for i in 0..self.by_affix_tier.len()
            invariant
                cells.affixes.len() == self.by_affix_tier.len(),
                affixes.len() == self.by_affix_tier.len(),
                forall|k: int|
                    0 <= k < affixes.len() ==> #[trigger] affixes[k] == affix_row(
                        self.by_affix_tier@[k],
                        cells.affixes@[k],
                    ),
                more.len() == i,
                forall|k: int| 0 <= k < i ==> (#[trigger] more@[k])@ == affixes[k],
        {
            more.push(line_of_affix(&self.by_affix_tier[i], &cells.affixes[i]));
        }
        assert(texts(more@) =~= affixes);
        push_lines(&mut lines, more);
        lines
    }
}

/// How the tables are laid out: three lines of heading, then the five rarities from the most
/// common to the rarest, then every base, then, if any base has a time to kill, those that
/// have one, and then every affix tier.
pub proof fn law_report_layout(sum: Summary, seed: u64, ilvl: u32, cells: Cells, r: Rarity, i: int)
    ensures
        ({
            let lines = report_lines(sum, seed, ilvl, cells);
            let bases = sum.by_base@.len();
            let tiers = sum.by_affix_tier@.len();
            let kill = ttk_rows(sum.by_base@, cells.bases@, bases as int).len();
            &&& lines.len() == 13 + bases + tiers + if kill > 0 {
                kill + 2
            } else {
                0
            }
            &&& lines[4 + r.rank()] == rarity_row(
                r,
                sum.rarities@[r.rank()],
                cells.rarities@[r.rank()],
            )
            &&& 0 <= i < bases ==> lines[11 + i] == base_row(sum.by_base@[i], cells.bases@[i])
            &&& 0 <= i < tiers ==> lines[lines.len() - tiers + i] == affix_row(
                sum.by_affix_tier@[i],
                cells.affixes@[i],
            )
        }),
{
}

/// The rows of the times to kill are those of the bases that have any, in their order.
pub proof fn law_kill_rows(sums: Seq<BaseSum>, cells: Seq<BaseCells>, n: int, i: int)
    requires
        0 <= n <= sums.len(),
    ensures
        ttk_rows(sums, cells, n).len() == sums.take(n).filter(|s: BaseSum| s.ttk@.len() > 0).len(),
        0 <= i < n && sums[i].ttk@.len() > 0 ==> ttk_rows(sums, cells, n).contains(
            ttk_row(sums[i], cells[i]),
        ),
    decreases n,
{
    reveal(Seq::filter);
    if n > 0 {
        law_kill_rows(sums, cells, n - 1, i);
        assert(sums.take(n).drop_last() =~= sums.take(n - 1));
        let before = ttk_rows(sums, cells, n - 1);
        let after = ttk_rows(sums, cells, n);
        if 0 <= i < n && sums[i].ttk@.len() > 0 {
            let row = ttk_row(sums[i], cells[i]);
            if i == n - 1 {
                assert(after[before.len() as int] == row);
            } else {
                let k = choose|k: int| 0 <= k < before.len() && before[k] == row;
                assert(after[k] == row);
            }
        }
    }
}

/// Whether a column ends with a text and is filled up with spaces before it to its width.
pub open spec fn ends_with(column: Seq<char>, text: Seq<char>, width: int) -> bool {
    &&& column.len() >= text.len()
    &&& column.len() >= width
    &&& column.len() == text.len() || column.len() == width
    &&& column.skip(column.len() - text.len()) == text
    &&& forall|i: int| 0 <= i < column.len() - text.len() ==> #[trigger] column[i] == ' '
}

/// Whether a column starts with a text and is filled up with spaces after it to its width.
pub open spec fn starts_with(column: Seq<char>, text: Seq<char>, width: int) -> bool {
    &&& column.len() >= text.len()
    &&& column.len() >= width
    &&& column.len() == text.len() || column.len() == width
    &&& column.take(text.len() as int) == text
    &&& forall|i: int| text.len() <= i < column.len() ==> #[trigger] column[i] == ' '
}

/// Whether a column ends with a number.
pub open spec fn counts_to(column: Seq<char>, n: int, width: int) -> bool {
    exists|digits: Seq<char>| #[trigger]
        ends_with(column, digits, width) && spelled(digits, 10) == n
}

proof fn lemma_aligned(text: Seq<char>, width: int)
    ensures
        ends_with(right_aligned(text, width), text, width),
        starts_with(left_aligned(text, width), text, width),
{
    law_columns(text, width, 0);
    let r = right_aligned(text, width);
    let l = left_aligned(text, width);
    assert forall|i: int| 0 <= i < r.len() - text.len() implies #[trigger] r[i] == ' ' by {
        law_columns(text, width, i);
    }
    assert forall|i: int| text.len() <= i < l.len() implies #[trigger] l[i] == ' ' by {
        law_columns(text, width, i - text.len());
    }
}

proof fn lemma_counts_to(n: nat, width: int)
    ensures
        counts_to(right_aligned(decimal(n), width), n as int, width),
{
    law_digits_spell_the_number(n);
    lemma_aligned(decimal(n), width);
    assert(ends_with(right_aligned(decimal(n), width), decimal(n), width));
}

/// What stands in the rows of the rarities: the name in a column of ten, then the count, the
/// share and how many affixes there are on average, each at the right edge of its column.
pub proof fn law_rows_of_rarities(rarity: Rarity, sum: RaritySum, cells: RarityCells)
    ensures
        exists|c: Seq<Seq<char>>|
            {
                &&& rarity_row(rarity, sum, cells) == #[trigger] joined(c, " "@)
                &&& c.len() == 4
                &&& starts_with(c[0], rarity.label(), 10)
                &&& counts_to(c[1], sum.count as int, 8)
                &&& c[2].len() > 0 && c[2].last() == '%' && ends_with(
                    c[2].drop_last(),
                    cells.pct@,
                    7,
                )
                &&& ends_with(c[3], cells.avg_affixes@, 14)
            },
{
    let c = seq![
        left_aligned(rarity.label(), 10),
        right_aligned(decimal(sum.count as nat), 8),
        right_aligned(cells.pct@, 7).push('%'),
        right_aligned(cells.avg_affixes@, 14),
    ];
    lemma_aligned(rarity.label(), 10);
    lemma_counts_to(sum.count as nat, 8);
    lemma_aligned(cells.pct@, 7);
    lemma_aligned(cells.avg_affixes@, 14);
    assert(c[2].drop_last() =~= right_aligned(cells.pct@, 7));
    assert(rarity_row(rarity, sum, cells) == joined(c, " "@));
}

/// What stands in the rows of the bases: the name in a column of twenty, then how many drops
/// there were, their share, their damage on average, and their time to kill on average or a
/// dash where none of them kills.
pub proof fn law_rows_of_bases(sum: BaseSum, cells: BaseCells)
    ensures
        exists|c: Seq<Seq<char>>|
            {
                &&& base_row(sum, cells) == #[trigger] joined(c, " "@)
                &&& c.len() == 5
                &&& starts_with(c[0], sum.base@, 20)
                &&& counts_to(c[1], sum.dps@.len() as int, 8)
                &&& c[2].len() > 0 && c[2].last() == '%' && ends_with(
                    c[2].drop_last(),
                    cells.pct@,
                    7,
                )
                &&& ends_with(c[3], cells.avg_dps@, 10)
                &&& sum.ttk@.len() > 0 ==> ends_with(c[4], cells.avg_ttk@, 10)
                &&& sum.ttk@.len() == 0 ==> ends_with(c[4], "—"@, 10)
            },
{
    let ttk = if sum.ttk.len() > 0 {
        cells.avg_ttk@
    } else {
        "—"@
    };
    let c = seq![
        left_aligned(sum.base@, 20),
        right_aligned(decimal(sum.dps.len() as nat), 8),
        right_aligned(cells.pct@, 7).push('%'),
        right_aligned(cells.avg_dps@, 10),
        right_aligned(ttk, 10),
    ];
    lemma_aligned(sum.base@, 20);
    lemma_counts_to(sum.dps.len() as nat, 8);
    lemma_aligned(cells.pct@, 7);
    lemma_aligned(cells.avg_dps@, 10);
    lemma_aligned(ttk, 10);
    assert(c[2].drop_last() =~= right_aligned(cells.pct@, 7));
    assert(base_row(sum, cells) == joined(c, " "@));
}

/// What stands in the rows of the times to kill: the name of the base, and for each rarity the
/// time on average in seconds, or a dash where there is none.
pub proof fn law_rows_of_times(sum: BaseSum, cells: BaseCells, i: int)
    requires
        0 <= i < 5,
    ensures
        exists|c: Seq<Seq<char>>|
            {
                &&& ttk_row(sum, cells) == #[trigger] joined(c, " "@)
                &&& c.len() == 6
                &&& starts_with(c[0], sum.base@, 20)
                &&& sum.ttk_by_rarity@[i]@.len() > 0 ==> c[i + 1].len() > 0 && c[i + 1].last()
                    == 's' && ends_with(c[i + 1].drop_last(), cells.ttk_by_rarity@[i]@, 9)
                &&& sum.ttk_by_rarity@[i]@.len() == 0 ==> ends_with(c[i + 1], "—"@, 10)
            },
{
    let c = seq![left_aligned(sum.base@, 20)] + Seq::new(
        5,
        |i: int|
            if sum.ttk_by_rarity@[i].len() > 0 {
                right_aligned(cells.ttk_by_rarity@[i]@, 9).push('s')
            } else {
                right_aligned("—"@, 10)
            },
    );
    lemma_aligned(sum.base@, 20);
    lemma_aligned(cells.ttk_by_rarity@[i]@, 9);
    lemma_aligned("—"@, 10);
    assert(right_aligned(cells.ttk_by_rarity@[i]@, 9).push('s').drop_last() =~= right_aligned(
        cells.ttk_by_rarity@[i]@,
        9,
    ));
    assert(ttk_row(sum, cells) == joined(c, " "@));
}

/// What stands in the rows of the affix tiers: the id, the tier, how often it was rolled, the
/// average, the range in brackets and how much of it was filled.
pub proof fn law_rows_of_affixes(sum: AffixTierSum, cells: AffixCells)
    ensures
        exists|c: Seq<Seq<char>>|
            {
                &&& affix_row(sum, cells) == #[trigger] joined(c, " "@)
                &&& c.len() == 7
                &&& starts_with(c[0], sum.affix_id@, 24)
                &&& c[1].len() > 0 && c[1][0] == 'T' && starts_with(
                    c[1].skip(1),
                    decimal(sum.tier as nat),
                    3,
                )
                &&& counts_to(c[2], sum.count as int, 8)
                &&& ends_with(c[3], cells.avg_roll@, 10)
                &&& c[4].len() > 1 && c[4][0] == '[' && c[4].last() == ',' && ends_with(
                    c[4].drop_last().skip(1),
                    cells.min@,
                    7,
                )
                &&& c[5].len() > 0 && c[5].last() == ']' && ends_with(
                    c[5].drop_last(),
                    cells.max@,
                    7,
                )
                &&& c[6].len() > 0 && c[6].last() == '%' && ends_with(
                    c[6].drop_last(),
                    cells.fill@,
                    9,
                )
            },
{
    let c = seq![
        left_aligned(sum.affix_id@, 24),
        "T"@ + left_aligned(decimal(sum.tier as nat), 3),
        right_aligned(decimal(sum.count as nat), 8),
        right_aligned(cells.avg_roll@, 10),
        ("["@ + right_aligned(cells.min@, 7)).push(','),
        right_aligned(cells.max@, 7).push(']'),
        right_aligned(cells.fill@, 9).push('%'),
    ];
    reveal_strlit("T");
    reveal_strlit("[");
    lemma_aligned(sum.affix_id@, 24);
    lemma_aligned(decimal(sum.tier as nat), 3);
    lemma_counts_to(sum.count as nat, 8);
    lemma_aligned(cells.avg_roll@, 10);
    lemma_aligned(cells.min@, 7);
    lemma_aligned(cells.max@, 7);
    lemma_aligned(cells.fill@, 9);
    assert(c[1].skip(1) =~= left_aligned(decimal(sum.tier as nat), 3));
    assert(c[4].drop_last().skip(1) =~= right_aligned(cells.min@, 7));
    assert(c[5].drop_last() =~= right_aligned(cells.max@, 7));
    assert(c[6].drop_last() =~= right_aligned(cells.fill@, 9));
    assert(affix_row(sum, cells) == joined(c, " "@));
}

/// What the second line says: the seed, the level and how many drops there were.
pub proof fn law_line_of_the_run(seed: u64, ilvl: u32, drops: u32)
    ensures
        exists|d: Seq<Seq<char>>|
            {
                &&& #[trigger] d.len() == 3
                &&& spelled(d[0], 10) == seed
                &&& spelled(d[1], 10) == ilvl
                &&& spelled(d[2], 10) == drops
                &&& run_line(seed, ilvl, drops) == "seed: "@ + d[0] + "  ilvl: "@ + d[1]
                    + "  drops: "@ + d[2]
            },
{
    let d = seq![decimal(seed as nat), decimal(ilvl as nat), decimal(drops as nat)];
    law_digits_spell_the_number(seed as nat);
    law_digits_spell_the_number(ilvl as nat);
    law_digits_spell_the_number(drops as nat);
    assert(d.len() == 3);
}

} // verus!
