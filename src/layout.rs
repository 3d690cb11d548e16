use vstd::prelude::*;
use crate::decimal::{decimal_of_text, decimal_text, lemma_decimal_round_trip, Decimal};
use crate::number::{
    i32_of_text, i32_text, int_text, lemma_i32_round_trip, lemma_u32_round_trip, nat_text,
    parse_i32, parse_u32, u32_of_text, u32_text,
};
use crate::rows::{cell_at, cells_of, new_row, push_cell, row_cells};
use crate::table::{BalanceTable, PerCategory, PerTier, Tier, TierlessCategory};

verus! {

/// Why a sequence of rows is not a balance table. Rows and columns count from zero,
/// the first header row included.
#[derive(Debug, Clone, Copy, PartialEq, Eq, Structural)]
pub enum TableError {
    MissingRow { row: usize },
    BadCell { row: usize, column: usize },
}

/// Number of rows of the tabular layout: a header, the five tiers, a blank row,
/// a second header and the six tierless categories.
pub const TABLE_ROWS: usize = 14;

/// The entries of one tier row.
#[derive(Debug, Clone, Copy, PartialEq, Eq, Structural)]
pub struct TierEntries {
    pub value: u32,
    pub weight: Decimal,
    pub duration: i32,
    pub magnitude: i32,
    pub restore_duration: i32,
    pub restore_magnitude: i32,
    pub other_duration: i32,
    pub other_magnitude: i32,
}

/// The entries of one tierless row.
#[derive(Debug, Clone, Copy, PartialEq, Eq, Structural)]
pub struct CategoryEntries {
    pub value: u32,
    pub weight: Decimal,
}

pub open spec fn u32_cell(cells: Seq<Seq<char>>, c: int) -> Option<u32> {
    if c < cells.len() {
        u32_of_text(cells[c])
    } else {
        None
    }
}

pub open spec fn i32_cell(cells: Seq<Seq<char>>, c: int) -> Option<i32> {
    if c < cells.len() {
        i32_of_text(cells[c])
    } else {
        None
    }
}

pub open spec fn decimal_cell(cells: Seq<Seq<char>>, c: int) -> Option<Decimal> {
    if c < cells.len() {
        decimal_of_text(cells[c])
    } else {
        None
    }
}

/// The entries of a tier row, or the first column (from the left) that does not hold one.
pub open spec fn tier_entries(cells: Seq<Seq<char>>) -> Result<TierEntries, usize> {
    if u32_cell(cells, 1) is None {
        Err(1)
    } else if decimal_cell(cells, 2) is None {
        Err(2)
    } else if i32_cell(cells, 3) is None {
        Err(3)
    } else if i32_cell(cells, 4) is None {
        Err(4)
    } else if i32_cell(cells, 5) is None {
        Err(5)
    } else if i32_cell(cells, 6) is None {
        Err(6)
    } else if i32_cell(cells, 7) is None {
        Err(7)
    } else if i32_cell(cells, 8) is None {
        Err(8)
    } else {
        Ok(
            TierEntries {
                value: u32_cell(cells, 1)->Some_0,
                weight: decimal_cell(cells, 2)->Some_0,
                duration: i32_cell(cells, 3)->Some_0,
                magnitude: i32_cell(cells, 4)->Some_0,
                restore_duration: i32_cell(cells, 5)->Some_0,
                restore_magnitude: i32_cell(cells, 6)->Some_0,
                other_duration: i32_cell(cells, 7)->Some_0,
                other_magnitude: i32_cell(cells, 8)->Some_0,
            },
        )
    }
}

/// The entries of a tierless row, or the first column that does not hold one.
pub open spec fn category_entries(cells: Seq<Seq<char>>) -> Result<CategoryEntries, usize> {
    if u32_cell(cells, 1) is None {
        Err(1)
    } else if decimal_cell(cells, 2) is None {
        Err(2)
    } else {
        Ok(
            CategoryEntries {
                value: u32_cell(cells, 1)->Some_0,
                weight: decimal_cell(cells, 2)->Some_0,
            },
        )
    }
}

pub open spec fn is_tier_row(r: int) -> bool {
    1 <= r <= 5
}

pub open spec fn is_category_row(r: int) -> bool {
    8 <= r <= 13
}

/// What is wrong with one row of the layout, if anything: it is missing, or a
/// cell that must hold a number does not.
pub open spec fn row_error(rows: Seq<Seq<Seq<char>>>, r: int) -> Option<TableError> {
    if r >= rows.len() {
        Some(TableError::MissingRow { row: r as usize })
    } else if is_tier_row(r) && tier_entries(rows[r]) is Err {
        Some(TableError::BadCell { row: r as usize, column: tier_entries(rows[r])->Err_0 })
    } else if is_category_row(r) && category_entries(rows[r]) is Err {
        Some(TableError::BadCell { row: r as usize, column: category_entries(rows[r])->Err_0 })
    } else {
        None
    }
}

/// The first error in rows `r ..` of the layout, read top to bottom.
pub open spec fn first_error_from(rows: Seq<Seq<Seq<char>>>, r: int) -> Option<TableError>
    decreases TABLE_ROWS - r,
{
    if r >= TABLE_ROWS || r < 0 {
        None
    } else {
        match row_error(rows, r) {
            Some(e) => Some(e),
            None => first_error_from(rows, r + 1),
        }
    }
}

pub open spec fn tier_at(rows: Seq<Seq<Seq<char>>>, r: int) -> TierEntries {
    tier_entries(rows[r])->Ok_0
}

pub open spec fn category_at(rows: Seq<Seq<Seq<char>>>, r: int) -> CategoryEntries {
    category_entries(rows[r])->Ok_0
}

/// The table that well-formed rows hold.
pub open spec fn assembled(rows: Seq<Seq<Seq<char>>>) -> BalanceTable {
    let (b, c, s, q, e) = (
        tier_at(rows, 1),
        tier_at(rows, 2),
        tier_at(rows, 3),
        tier_at(rows, 4),
        tier_at(rows, 5),
    );
    BalanceTable {
        value: PerTier { bargain: b.value, cheap: c.value, standard: s.value, quality: q.value, exclusive: e.value },
        weight: PerTier { bargain: b.weight, cheap: c.weight, standard: s.weight, quality: q.weight, exclusive: e.weight },
        duration_only: PerTier {
            bargain: b.duration,
            cheap: c.duration,
            standard: s.duration,
            quality: q.duration,
            exclusive: e.duration,
        },
        magnitude_only: PerTier {
            bargain: b.magnitude,
            cheap: c.magnitude,
            standard: s.magnitude,
            quality: q.magnitude,
            exclusive: e.magnitude,
        },
        restore_pair: PerTier {
            bargain: (b.restore_duration, b.restore_magnitude),
            cheap: (c.restore_duration, c.restore_magnitude),
            standard: (s.restore_duration, s.restore_magnitude),
            quality: (q.restore_duration, q.restore_magnitude),
            exclusive: (e.restore_duration, e.restore_magnitude),
        },
        other_pair: PerTier {
            bargain: (b.other_duration, b.other_magnitude),
            cheap: (c.other_duration, c.other_magnitude),
            standard: (s.other_duration, s.other_magnitude),
            quality: (q.other_duration, q.other_magnitude),
            exclusive: (e.other_duration, e.other_magnitude),
        },
        tierless_value: PerCategory {
            mark: category_at(rows, 8).value,
            teleport: category_at(rows, 9).value,
            cure_poison_or_paralyze: category_at(rows, 10).value,
            cure_common_disease: category_at(rows, 11).value,
            cure_blight_disease: category_at(rows, 12).value,
            vampirism: category_at(rows, 13).value,
        },
        tierless_weight: PerCategory {
            mark: category_at(rows, 8).weight,
            teleport: category_at(rows, 9).weight,
            cure_poison_or_paralyze: category_at(rows, 10).weight,
            cure_common_disease: category_at(rows, 11).weight,
            cure_blight_disease: category_at(rows, 12).weight,
            vampirism: category_at(rows, 13).weight,
        },
    }
}

/// The table that rows hold, read by position; rows after the layout are ignored.
pub open spec fn table_of_rows(rows: Seq<Seq<Seq<char>>>) -> Result<BalanceTable, TableError> {
    match first_error_from(rows, 0) {
        Some(e) => Err(e),
        None => Ok(assembled(rows)),
    }
}

pub open spec fn empty_cells(n: nat) -> Seq<Seq<char>> {
    Seq::new(n, |i: int| Seq::<char>::empty())
}

pub open spec fn tier_cells(label: Seq<char>, t: BalanceTable, tier: Tier) -> Seq<Seq<char>> {
    seq![
        label,
        nat_text(t.value.at(tier) as nat),
        decimal_text(t.weight.at(tier)),
        int_text(t.duration_only.at(tier) as int),
        int_text(t.magnitude_only.at(tier) as int),
        int_text(t.restore_pair.at(tier).0 as int),
        int_text(t.restore_pair.at(tier).1 as int),
        int_text(t.other_pair.at(tier).0 as int),
        int_text(t.other_pair.at(tier).1 as int),
    ]
}

pub open spec fn category_cells(
    label: Seq<char>,
    t: BalanceTable,
    c: TierlessCategory,
) -> Seq<Seq<char>> {
    seq![label, nat_text(t.tierless_value.at(c) as nat), decimal_text(t.tierless_weight.at(c))]
        + empty_cells(6)
}

pub open spec fn header_cells() -> Seq<Seq<char>> {
    seq![
        Seq::empty(),
        "Value"@,
        "Weight"@,
        "Duration Only"@,
        "Magnitude Only"@,
        "Restore Duration"@,
        "Restore Magnitude"@,
        "Others Duration"@,
        "Others Magnitude"@,
    ]
}

/// Row `r` of the layout of a table.
pub open spec fn table_row(t: BalanceTable, r: int) -> Seq<Seq<char>> {
    if r == 0 {
        header_cells()
    } else if r == 1 {
        tier_cells("Bargain"@, t, Tier::Bargain)
    } else if r == 2 {
        tier_cells("Cheap"@, t, Tier::Cheap)
    } else if r == 3 {
        tier_cells("Standard"@, t, Tier::Standard)
    } else if r == 4 {
        tier_cells("Quality"@, t, Tier::Quality)
    } else if r == 5 {
        tier_cells("Exclusive"@, t, Tier::Exclusive)
    } else if r == 6 {
        empty_cells(9)
    } else if r == 7 {
        seq![Seq::empty(), "Value"@, "Weight"@] + empty_cells(6)
    } else if r == 8 {
        category_cells("Mark"@, t, TierlessCategory::Mark)
    } else if r == 9 {
        category_cells("Teleport"@, t, TierlessCategory::Teleport)
    } else if r == 10 {
        category_cells("Cure Poison / Paralyzation"@, t, TierlessCategory::CurePoisonOrParalyze)
    } else if r == 11 {
        category_cells("Cure Common Disease"@, t, TierlessCategory::CureCommonDisease)
    } else if r == 12 {
        category_cells("Cure Blight Disease"@, t, TierlessCategory::CureBlightDisease)
    } else {
        category_cells("Vampirism"@, t, TierlessCategory::Vampirism)
    }
}

/// The rows that a table is written as.
pub open spec fn table_rows(t: BalanceTable) -> Seq<Seq<Seq<char>>> {
    Seq::new(TABLE_ROWS as nat, |r: int| table_row(t, r))
}

proof fn lemma_first_error_clear(rows: Seq<Seq<Seq<char>>>, r: int)
    requires
        0 <= r <= TABLE_ROWS,
        forall|k: int| r <= k < TABLE_ROWS ==> row_error(rows, k) is None,
    ensures
        first_error_from(rows, r) is None,
    decreases TABLE_ROWS - r,
{
    if r < TABLE_ROWS {
        lemma_first_error_clear(rows, r + 1);
    }
}

proof fn lemma_tier_round_trip(label: Seq<char>, t: BalanceTable, tier: Tier)
    ensures
        tier_entries(tier_cells(label, t, tier)) == Ok::<TierEntries, usize>(
            TierEntries {
                value: t.value.at(tier),
                weight: t.weight.at(tier),
                duration: t.duration_only.at(tier),
                magnitude: t.magnitude_only.at(tier),
                restore_duration: t.restore_pair.at(tier).0,
                restore_magnitude: t.restore_pair.at(tier).1,
                other_duration: t.other_pair.at(tier).0,
                other_magnitude: t.other_pair.at(tier).1,
            },
        ),
{
    lemma_u32_round_trip(t.value.at(tier));
    lemma_decimal_round_trip(t.weight.at(tier));
    lemma_i32_round_trip(t.duration_only.at(tier));
    lemma_i32_round_trip(t.magnitude_only.at(tier));
    lemma_i32_round_trip(t.restore_pair.at(tier).0);
    lemma_i32_round_trip(t.restore_pair.at(tier).1);
    lemma_i32_round_trip(t.other_pair.at(tier).0);
    lemma_i32_round_trip(t.other_pair.at(tier).1);
}

proof fn lemma_category_round_trip(label: Seq<char>, t: BalanceTable, c: TierlessCategory)
    ensures
        category_entries(category_cells(label, t, c)) == Ok::<CategoryEntries, usize>(
            CategoryEntries { value: t.tierless_value.at(c), weight: t.tierless_weight.at(c) },
        ),
{
    lemma_u32_round_trip(t.tierless_value.at(c));
    lemma_decimal_round_trip(t.tierless_weight.at(c));
    let cells = category_cells(label, t, c);
    assert(cells[1] == nat_text(t.tierless_value.at(c) as nat));
    assert(cells[2] == decimal_text(t.tierless_weight.at(c)));
}

/// Exporting a table to rows and importing those rows gives the same table back.
pub proof fn lemma_table_round_trip(t: BalanceTable)
    ensures
        table_of_rows(table_rows(t)) == Ok::<BalanceTable, TableError>(t),
{
    let rows = table_rows(t);
    lemma_tier_round_trip("Bargain"@, t, Tier::Bargain);
    lemma_tier_round_trip("Cheap"@, t, Tier::Cheap);
    lemma_tier_round_trip("Standard"@, t, Tier::Standard);
    lemma_tier_round_trip("Quality"@, t, Tier::Quality);
    lemma_tier_round_trip("Exclusive"@, t, Tier::Exclusive);
    lemma_category_round_trip("Mark"@, t, TierlessCategory::Mark);
    lemma_category_round_trip("Teleport"@, t, TierlessCategory::Teleport);
    lemma_category_round_trip(
        "Cure Poison / Paralyzation"@,
        t,
        TierlessCategory::CurePoisonOrParalyze,
    );
    lemma_category_round_trip("Cure Common Disease"@, t, TierlessCategory::CureCommonDisease);
    lemma_category_round_trip("Cure Blight Disease"@, t, TierlessCategory::CureBlightDisease);
    lemma_category_round_trip("Vampirism"@, t, TierlessCategory::Vampirism);
    assert forall|k: int| 0 <= k < TABLE_ROWS implies row_error(rows, k) is None by {
        if k == 1 {
        } else if k == 2 {
        } else if k == 3 {
        } else if k == 4 {
        } else if k == 5 {
        } else if k == 8 {
        } else if k == 9 {
        } else if k == 10 {
        } else if k == 11 {
        } else if k == 12 {
        } else if k == 13 {
        }
    }
    lemma_first_error_clear(rows, 0);
    assert(assembled(rows) == t);
}

fn read_u32_cell(row: &csv::StringRecord, c: usize) -> (r: Option<u32>)
    ensures
        r == u32_cell(row_cells(*row), c as int),
{
    match cell_at(row, c) {
        Some(s) => parse_u32(s),
        None => None,
    }
}

fn read_i32_cell(row: &csv::StringRecord, c: usize) -> (r: Option<i32>)
    ensures
        r == i32_cell(row_cells(*row), c as int),
{
    match cell_at(row, c) {
        Some(s) => parse_i32(s),
        None => None,
    }
}

fn read_decimal_cell(row: &csv::StringRecord, c: usize) -> (r: Option<Decimal>)
    ensures
        r == decimal_cell(row_cells(*row), c as int),
{
    match cell_at(row, c) {
        Some(s) => Decimal::parse(s),
        None => None,
    }
}

/// Reads the entries of a tier row.
pub fn read_tier(row: &csv::StringRecord) -> (r: Result<TierEntries, usize>)
    ensures
        r == tier_entries(row_cells(*row)),
{
    let value = match read_u32_cell(row, 1) {
        Some(v) => v,
        None => return Err(1),
    };
    let weight = match read_decimal_cell(row, 2) {
        Some(v) => v,
        None => return Err(2),
    };
    let duration = match read_i32_cell(row, 3) {
        Some(v) => v,
        None => return Err(3),
    };
    let magnitude = match read_i32_cell(row, 4) {
        Some(v) => v,
        None => return Err(4),
    };
    let restore_duration = match read_i32_cell(row, 5) {
        Some(v) => v,
        None => return Err(5),
    };
    let restore_magnitude = match read_i32_cell(row, 6) {
        Some(v) => v,
        None => return Err(6),
    };
    let other_duration = match read_i32_cell(row, 7) {
        Some(v) => v,
        None => return Err(7),
    };
    let other_magnitude = match read_i32_cell(row, 8) {
        Some(v) => v,
        None => return Err(8),
    };
    Ok(
        TierEntries {
            value,
            weight,
            duration,
            magnitude,
            restore_duration,
            restore_magnitude,
            other_duration,
            other_magnitude,
        },
    )
}

/// Reads the entries of a tierless row.
pub fn read_category(row: &csv::StringRecord) -> (r: Result<CategoryEntries, usize>)
    ensures
        r == category_entries(row_cells(*row)),
{
    let value = match read_u32_cell(row, 1) {
        Some(v) => v,
        None => return Err(1),
    };
    let weight = match read_decimal_cell(row, 2) {
        Some(v) => v,
        None => return Err(2),
    };
    Ok(CategoryEntries { value, weight })
}

fn check_row(rows: &Vec<csv::StringRecord>, r: usize) -> (e: Option<TableError>)
    ensures
        e == row_error(cells_of(rows@), r as int),
{
    let ghost cells = cells_of(rows@);
    if r >= rows.len() {
        return Some(TableError::MissingRow { row: r });
    }
    assert(cells[r as int] == row_cells(rows@[r as int]));
    if 1 <= r && r <= 5 {
        match read_tier(&rows[r]) {
            Err(c) => Some(TableError::BadCell { row: r, column: c }),
            Ok(_) => None,
        }
    } else if 8 <= r && r <= 13 {
        match read_category(&rows[r]) {
            Err(c) => Some(TableError::BadCell { row: r, column: c }),
            Ok(_) => None,
        }
    } else {
        None
    }
}

fn tier_of_row(rows: &Vec<csv::StringRecord>, r: usize) -> (e: TierEntries)
    requires
        r < rows.len(),
        tier_entries(row_cells(rows@[r as int])) is Ok,
    ensures
        e == tier_entries(row_cells(rows@[r as int]))->Ok_0,
{
    match read_tier(&rows[r]) {
        Ok(e) => e,
        Err(_) => TierEntries {
            value: 0,
            weight: Decimal { mantissa: 0, scale: 0 },
            duration: 0,
            magnitude: 0,
            restore_duration: 0,
            restore_magnitude: 0,
            other_duration: 0,
            other_magnitude: 0,
        },
    }
}

fn category_of_row(rows: &Vec<csv::StringRecord>, r: usize) -> (e: CategoryEntries)
    requires
        r < rows.len(),
        category_entries(row_cells(rows@[r as int])) is Ok,
    ensures
        e == category_entries(row_cells(rows@[r as int]))->Ok_0,
{
    match read_category(&rows[r]) {
        Ok(e) => e,
        Err(_) => CategoryEntries { value: 0, weight: Decimal { mantissa: 0, scale: 0 } },
    }
}

impl BalanceTable {
    /// Reads a table from csv records laid out as `to_rows` writes them. The
    /// first row is a header and is not read; rows after the layout are ignored.
    pub fn from_rows(rows: &Vec<csv::StringRecord>) -> (r: Result<BalanceTable, TableError>)
        ensures
            r == table_of_rows(cells_of(rows@)),
    {
        let ghost cells = cells_of(rows@);
        let mut r: usize = 0;
        while r < TABLE_ROWS
            invariant
                r <= TABLE_ROWS,
                cells == cells_of(rows@),
                forall|k: int| 0 <= k < r ==> row_error(cells, k) is None,
                first_error_from(cells, 0) == first_error_from(cells, r as int),
            decreases TABLE_ROWS - r,
        {
            match check_row(rows, r) {
                Some(e) => {
                    return Err(e);
                },
                None => {},
            }
            r = r + 1;
        }
        proof {
            assert(row_error(cells, 13) is None);
            assert forall|k: int| 0 <= k < TABLE_ROWS implies cells[k] == row_cells(rows@[k])
                && row_error(cells, k) is None by {}
            assert(row_error(cells, 1) is None);
            assert(row_error(cells, 2) is None);
            assert(row_error(cells, 3) is None);
            assert(row_error(cells, 4) is None);
            assert(row_error(cells, 5) is None);
            assert(row_error(cells, 8) is None);
            assert(row_error(cells, 9) is None);
            assert(row_error(cells, 10) is None);
            assert(row_error(cells, 11) is None);
            assert(row_error(cells, 12) is None);
        }
        let b = tier_of_row(rows, 1);
        let c = tier_of_row(rows, 2);
        let s = tier_of_row(rows, 3);
        let q = tier_of_row(rows, 4);
        let e = tier_of_row(rows, 5);
        let mark = category_of_row(rows, 8);
        let teleport = category_of_row(rows, 9);
        let cure_poison = category_of_row(rows, 10);
        let cure_common = category_of_row(rows, 11);
        let cure_blight = category_of_row(rows, 12);
        let vampirism = category_of_row(rows, 13);
        let t = BalanceTable {
            value: PerTier { bargain: b.value, cheap: c.value, standard: s.value, quality: q.value, exclusive: e.value },
            weight: PerTier { bargain: b.weight, cheap: c.weight, standard: s.weight, quality: q.weight, exclusive: e.weight },
            duration_only: PerTier {
                bargain: b.duration,
                cheap: c.duration,
                standard: s.duration,
                quality: q.duration,
                exclusive: e.duration,
            },
            magnitude_only: PerTier {
                bargain: b.magnitude,
                cheap: c.magnitude,
                standard: s.magnitude,
                quality: q.magnitude,
                exclusive: e.magnitude,
            },
            restore_pair: PerTier {
                bargain: (b.restore_duration, b.restore_magnitude),
                cheap: (c.restore_duration, c.restore_magnitude),
                standard: (s.restore_duration, s.restore_magnitude),
                quality: (q.restore_duration, q.restore_magnitude),
                exclusive: (e.restore_duration, e.restore_magnitude),
            },
            other_pair: PerTier {
                bargain: (b.other_duration, b.other_magnitude),
                cheap: (c.other_duration, c.other_magnitude),
                standard: (s.other_duration, s.other_magnitude),
                quality: (q.other_duration, q.other_magnitude),
                exclusive: (e.other_duration, e.other_magnitude),
            },
            tierless_value: PerCategory {
                mark: mark.value,
                teleport: teleport.value,
                cure_poison_or_paralyze: cure_poison.value,
                cure_common_disease: cure_common.value,
                cure_blight_disease: cure_blight.value,
                vampirism: vampirism.value,
            },
            tierless_weight: PerCategory {
                mark: mark.weight,
                teleport: teleport.weight,
                cure_poison_or_paralyze: cure_poison.weight,
                cure_common_disease: cure_common.weight,
                cure_blight_disease: cure_blight.weight,
                vampirism: vampirism.weight,
            },
        };
        Ok(t)
    }
}

fn push_empty_cells(row: &mut csv::StringRecord, n: usize)
    ensures
        row_cells(*final(row)) == row_cells(*old(row)) + empty_cells(n as nat),
{
    proof {
        reveal_strlit("");
        assert(""@ =~= Seq::<char>::empty());
    }
    let mut i: usize = 0;
    while i < n
        invariant
            i <= n,
            row_cells(*row) == row_cells(*old(row)) + empty_cells(i as nat),
        decreases n - i,
    {
        proof {
            reveal_strlit("");
            assert(""@ =~= Seq::<char>::empty());
        }
        push_cell(row, "");
        i = i + 1;
        assert(row_cells(*row) =~= row_cells(*old(row)) + empty_cells(i as nat));
    }
}

fn tier_row_out(label: &str, t: &BalanceTable, tier: Tier) -> (r: csv::StringRecord)
    ensures
        row_cells(r) == tier_cells(label@, *t, tier),
{
    let mut row = new_row();
    push_cell(&mut row, label);
    push_cell(&mut row, u32_text(t.value.get(tier)).as_str());
    push_cell(&mut row, t.weight.get(tier).to_text().as_str());
    push_cell(&mut row, i32_text(t.duration_only.get(tier)).as_str());
    push_cell(&mut row, i32_text(t.magnitude_only.get(tier)).as_str());
    let restore = t.restore_pair.get(tier);
    push_cell(&mut row, i32_text(restore.0).as_str());
    push_cell(&mut row, i32_text(restore.1).as_str());
    let other = t.other_pair.get(tier);
    push_cell(&mut row, i32_text(other.0).as_str());
    push_cell(&mut row, i32_text(other.1).as_str());
    assert(row_cells(row) =~= tier_cells(label@, *t, tier));
    row
}

fn category_row_out(label: &str, t: &BalanceTable, c: TierlessCategory) -> (r: csv::StringRecord)
    ensures
        row_cells(r) == category_cells(label@, *t, c),
{
    let mut row = new_row();
    push_cell(&mut row, label);
    push_cell(&mut row, u32_text(t.tierless_value.get(c)).as_str());
    push_cell(&mut row, t.tierless_weight.get(c).to_text().as_str());
    let ghost three = row_cells(row);
    push_empty_cells(&mut row, 6);
    assert(three =~= seq![label@, nat_text(t.tierless_value.at(c) as nat), decimal_text(t.tierless_weight.at(c))]);
    row
}

fn header_row() -> (r: csv::StringRecord)
    ensures
        row_cells(r) == header_cells(),
{
    proof {
        reveal_strlit("");
        assert(""@ =~= Seq::<char>::empty());
    }
    let mut row = new_row();
    push_cell(&mut row, "");
    push_cell(&mut row, "Value");
    push_cell(&mut row, "Weight");
    push_cell(&mut row, "Duration Only");
    push_cell(&mut row, "Magnitude Only");
    push_cell(&mut row, "Restore Duration");
    push_cell(&mut row, "Restore Magnitude");
    push_cell(&mut row, "Others Duration");
    push_cell(&mut row, "Others Magnitude");
    assert(row_cells(row) =~= header_cells());
    row
}

fn second_header_row() -> (r: csv::StringRecord)
    ensures
        row_cells(r) == seq![Seq::<char>::empty(), "Value"@, "Weight"@] + empty_cells(6),
{
    proof {
        reveal_strlit("");
        assert(""@ =~= Seq::<char>::empty());
    }
    let mut row = new_row();
    push_cell(&mut row, "");
    push_cell(&mut row, "Value");
    push_cell(&mut row, "Weight");
    let ghost three = row_cells(row);
    push_empty_cells(&mut row, 6);
    assert(three =~= seq![Seq::<char>::empty(), "Value"@, "Weight"@]);
    row
}

fn blank_row() -> (r: csv::StringRecord)
    ensures
        row_cells(r) == empty_cells(9),
{
    let mut row = new_row();
    push_empty_cells(&mut row, 9);
    assert(row_cells(row) =~= empty_cells(9));
    row
}

impl BalanceTable {
    /// Writes the table as csv records: a header, one row per tier, a blank row,
    /// a second header and one row per tierless category.
    pub fn to_rows(&self) -> (rows: Vec<csv::StringRecord>)
        ensures
            cells_of(rows@) == table_rows(*self),
    {
        let mut rows: Vec<csv::StringRecord> = Vec::new();
        rows.push(header_row());
        rows.push(tier_row_out("Bargain", self, Tier::Bargain));
        rows.push(tier_row_out("Cheap", self, Tier::Cheap));
        rows.push(tier_row_out("Standard", self, Tier::Standard));
        rows.push(tier_row_out("Quality", self, Tier::Quality));
        rows.push(tier_row_out("Exclusive", self, Tier::Exclusive));
        rows.push(blank_row());
        rows.push(second_header_row());
        rows.push(category_row_out("Mark", self, TierlessCategory::Mark));
        rows.push(category_row_out("Teleport", self, TierlessCategory::Teleport));
        rows.push(
            category_row_out(
                "Cure Poison / Paralyzation",
                self,
                TierlessCategory::CurePoisonOrParalyze,
            ),
        );
        rows.push(
            category_row_out("Cure Common Disease", self, TierlessCategory::CureCommonDisease),
        );
        rows.push(
            category_row_out("Cure Blight Disease", self, TierlessCategory::CureBlightDisease),
        );
        rows.push(category_row_out("Vampirism", self, TierlessCategory::Vampirism));
        assert(cells_of(rows@) =~= table_rows(*self));
        rows
    }
}

} // verus!
