use tantivy::fastfield::Column;
use vstd::prelude::*;

verus! {

/// A fast-field column of the index engine: for each document of a segment,
/// the values stored for it. Opaque here; what it holds is `column_values`.
#[verifier::external_type_specification]
#[verifier::external_body]
#[verifier::reject_recursive_types(T)]
pub struct ExColumn<T>(Column<T>);

/// The first value that `column` stores for each document, by document id;
/// `None` where the document has no value. The length is the number of
/// documents of the segment that the column was opened on.
pub uninterp spec fn column_values(column: Column<u64>) -> Seq<Option<u64>>;

/// `Column::num_docs`: the number of documents that the column covers.
#[verifier::external_body]
pub(crate) fn column_num_docs(column: &Column<u64>) -> (num_docs: u32)
    ensures
        num_docs == column_values(*column).len(),
{
    column.num_docs()
}

/// `Column::first`: the first value stored for `doc_id`, if there is one.
/// The document must be one of the column's: past its end the lookup reads
/// outside the column's index.
#[verifier::external_body]
pub(crate) fn column_first(column: &Column<u64>, doc_id: u32) -> (value: Option<u64>)
    requires
        doc_id < column_values(*column).len(),
    ensures
        value == column_values(*column)[doc_id as int],
{
    column.first(doc_id)
}

/// `Column::build_empty_column`: a column over `num_docs` documents that
/// stores no value for any of them.
#[verifier::external_body]
pub(crate) fn empty_column(num_docs: u32) -> (column: Column<u64>)
    ensures
        column_values(column).len() == num_docs,
        forall|doc_id: int| 0 <= doc_id < num_docs ==> column_values(column)[doc_id] == None::<u64>,
{
    Column::build_empty_column(num_docs)
}

} // verus!
