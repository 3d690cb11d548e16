use vstd::prelude::*;

verus! {

#[verifier::external_type_specification]
#[verifier::external_body]
pub struct ExStringRecord(csv::StringRecord);

/// The fields that a csv record holds, in order.
pub uninterp spec fn row_cells(r: csv::StringRecord) -> Seq<Seq<char>>;

/// The fields of each record of a sequence.
pub open spec fn cells_of(rows: Seq<csv::StringRecord>) -> Seq<Seq<Seq<char>>> {
    rows.map_values(|r: csv::StringRecord| row_cells(r))
}

/// Relies on csv::StringRecord::new: a record without fields.
#[verifier::external_body]
pub(crate) fn new_row() -> (r: csv::StringRecord)
    ensures
        row_cells(r) == Seq::<Seq<char>>::empty(),
{
    csv::StringRecord::new()
}

/// Relies on csv::StringRecord::push_field: the field is added after the others.
#[verifier::external_body]
pub(crate) fn push_cell(row: &mut csv::StringRecord, cell: &str)
    ensures
        row_cells(*final(row)) == row_cells(*old(row)).push(cell@),
{
    row.push_field(cell)
}

/// Relies on csv::StringRecord::get: the field at a position, if there is one.
#[verifier::external_body]
pub(crate) fn cell_at(row: &csv::StringRecord, i: usize) -> (r: Option<&str>)
    ensures
        i < row_cells(*row).len() ==> r is Some && r.unwrap()@ == row_cells(*row)[i as int],
        i >= row_cells(*row).len() ==> r is None,
{
    row.get(i)
}

} // verus!
