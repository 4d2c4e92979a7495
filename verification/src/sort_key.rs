use crate::column::{column_first, column_values, empty_column};
use tantivy::fastfield::Column;
use vstd::prelude::*;

verus! {

/// Direction in which hits are ranked by a value.
#[derive(Clone, Copy, Debug, PartialEq, Eq, Structural)]
pub enum SortOrder {
    /// Smallest value first.
    Asc,
    /// Largest value first.
    Desc,
}

impl SortOrder {
    /// The order that a wire tag stands for: `0` is ascending, `1` is
    /// descending, and no other tag names an order.
    pub open spec fn spec_from_i32(value: i32) -> Option<SortOrder> {
        if value == 0 {
            Some(SortOrder::Asc)
        } else if value == 1 {
            Some(SortOrder::Desc)
        } else {
            None
        }
    }

    /// Reads a sort order from its wire tag.
    pub fn from_i32(value: i32) -> (order: Option<SortOrder>)
        ensures
            order == Self::spec_from_i32(value),
    {
        if value == 0 {
            Some(SortOrder::Asc)
        } else if value == 1 {
            Some(SortOrder::Desc)
        } else {
            None
        }
    }
}

/// What the hits of a search are ranked by.
#[derive(Clone, Debug)]
pub enum SortBy {
    /// By document id: the largest id ranks first.
    DocId,
    /// By the value of a fast field.
    FastField { field_name: String, order: SortOrder },
    /// By relevance score.
    Score { order: SortOrder },
}

/// The ranking key of a score, given as the bit pattern of a single-precision
/// float: patterns with the sign bit set are complemented, the others get the
/// sign bit set.
pub open spec fn f32_key(bits: u32) -> u64 {
    if bits >= 0x8000_0000u32 {
        (0xFFFF_FFFFu32 - bits) as u64
    } else {
        (bits + 0x8000_0000u32) as u64
    }
}

/// Where a bit pattern stands in the order of the floats: the magnitude for a
/// pattern without the sign bit, its negation for one with it. For patterns
/// that are not NaN this is the order of the floats themselves, except that
/// the two zeros fall together.
pub open spec fn f32_rank(bits: u32) -> int {
    if bits >= 0x8000_0000u32 {
        0x8000_0000 - bits
    } else {
        bits as int
    }
}

/// The bit pattern of negative zero.
pub open spec fn is_negative_zero(bits: u32) -> bool {
    bits == 0x8000_0000u32
}

/// Maps a score to an unsigned integer that is ordered as the scores are.
/// `value_bits` is the score's bit pattern (`f32::to_bits`).
pub fn f32_to_u64(value_bits: u32) -> (key: u64)
    ensures
        key == f32_key(value_bits),
{
    let mut mask: u32 = ((value_bits as i32) >> 31) as u32;
    mask |= 0x8000_0000u32;
    let key: u32 = value_bits ^ mask;
    assert(key as u64 == f32_key(value_bits)) by {
        let x = value_bits;
        assert(x >= 0x8000_0000u32 ==> x ^ ((((x as i32) >> 31) as u32) | 0x8000_0000u32)
            == 0xFFFF_FFFFu32 - x) by (bit_vector);
        assert(x < 0x8000_0000u32 ==> x ^ ((((x as i32) >> 31) as u32) | 0x8000_0000u32) == x
            + 0x8000_0000u32) by (bit_vector);
    }
    key as u64
}

/// The score key keeps the order of the floats: for two bit patterns of which
/// neither is negative zero, one ranks below the other exactly when its key is
/// the smaller one.
pub proof fn lemma_f32_to_u64_preserves_order(a: u32, b: u32)
    requires
        !is_negative_zero(a),
        !is_negative_zero(b),
    ensures
        f32_rank(a) < f32_rank(b) <==> f32_key(a) < f32_key(b),
{
}

/// The ranking key of a document that is ranked by a fast field: the value
/// itself where the largest ranks first, its distance from the top of the
/// range where the smallest does, and zero for a document without a value.
pub open spec fn fast_field_key(value: Option<u64>, order: SortOrder) -> u64 {
    match value {
        Some(value) => match order {
            SortOrder::Desc => value,
            SortOrder::Asc => (u64::MAX - value) as u64,
        },
        None => 0,
    }
}

/// The ranking key of a document that is ranked by its score.
pub open spec fn score_key(score_bits: u32, order: SortOrder) -> u64 {
    match order {
        SortOrder::Desc => f32_key(score_bits),
        SortOrder::Asc => (u64::MAX - f32_key(score_bits)) as u64,
    }
}

/// A sort criterion applied to one segment: it gives each document of the
/// segment its ranking key. A larger key is a better hit.
pub enum SortingFieldComputer {
    /// By document id.
    DocId,
    /// By the first value of the document in a column.
    FastField { sort_column: Column<u64>, order: SortOrder },
    /// By score.
    Score { order: SortOrder },
}

impl SortingFieldComputer {
    /// The criterion has a key for every document below `max_doc`: the
    /// column that it reads, if it reads one, covers these documents.
    pub open spec fn covers(&self, max_doc: u32) -> bool {
        match self {
            SortingFieldComputer::FastField { sort_column, .. } => max_doc <= column_values(
                *sort_column,
            ).len(),
            _ => true,
        }
    }

    /// The ranking key of a document.
    pub open spec fn sort_key(&self, doc_id: u32, score_bits: u32) -> u64 {
        match self {
            SortingFieldComputer::DocId => doc_id as u64,
            SortingFieldComputer::FastField { sort_column, order } => fast_field_key(
                column_values(*sort_column)[doc_id as int],
                *order,
            ),
            SortingFieldComputer::Score { order } => score_key(score_bits, *order),
        }
    }

    /// Returns the ranking key of the document `doc_id`, whose score has the
    /// bit pattern `score_bits`.
    pub(crate) fn compute_sorting_field(&self, doc_id: u32, score_bits: u32) -> (key: u64)
        requires
            self is FastField ==> doc_id < column_values(self->sort_column).len(),
        ensures
            key == self.sort_key(doc_id, score_bits),
    {
        match self {
            SortingFieldComputer::FastField { sort_column, order } => {
                if let Some(field_val) = column_first(sort_column, doc_id) {
                    match order {
                        SortOrder::Desc => field_val,
                        SortOrder::Asc => u64::MAX - field_val,
                    }
                } else {
                    0u64
                }
            },
            SortingFieldComputer::DocId => doc_id as u64,
            SortingFieldComputer::Score { order } => {
                let u64_score = f32_to_u64(score_bits);
                match order {
                    SortOrder::Desc => u64_score,
                    SortOrder::Asc => u64::MAX - u64_score,
                }
            },
        }
    }
}

/// Applies a sort criterion to a segment of `max_doc` documents.
/// `sort_column` is the column of the criterion's fast field in that
/// segment, where the segment has one; without it every document counts as
/// having no value.
pub fn resolve_sort_by(sort_by: &SortBy, sort_column: Option<Column<u64>>, max_doc: u32) -> (computer:
    SortingFieldComputer)
    ensures
        match *sort_by {
            SortBy::DocId => computer is DocId,
            SortBy::Score { order } => computer == (SortingFieldComputer::Score { order }),
            SortBy::FastField { field_name, order } => match sort_column {
                Some(column) => computer == (SortingFieldComputer::FastField {
                    sort_column: column,
                    order,
                }),
                None => computer matches SortingFieldComputer::FastField {
                    sort_column: empty,
                    order: resolved_order,
                } && resolved_order == order && column_values(empty) == Seq::new(
                    max_doc as nat,
                    |doc_id: int| None::<u64>,
                ),
            },
        },
{
    match sort_by {
        SortBy::DocId => SortingFieldComputer::DocId,
        SortBy::FastField { field_name, order } => {
            let sort_column = match sort_column {
                Some(column) => column,
                None => {
                    let empty = empty_column(max_doc);
                    assert(column_values(empty) =~= Seq::new(
                        max_doc as nat,
                        |doc_id: int| None::<u64>,
                    ));
                    empty
                },
            };
            SortingFieldComputer::FastField { sort_column, order: *order }
        },
        SortBy::Score { order } => SortingFieldComputer::Score { order: *order },
    }
}

/// Ranking by a fast field follows its values: where the largest value ranks
/// first, a larger value gives a larger key; where the smallest ranks first,
/// a larger value gives a smaller key.
pub proof fn lemma_fast_field_key_monotonic(a: u64, b: u64)
    requires
        a < b,
    ensures
        fast_field_key(Some(a), SortOrder::Desc) < fast_field_key(Some(b), SortOrder::Desc),
        fast_field_key(Some(a), SortOrder::Asc) > fast_field_key(Some(b), SortOrder::Asc),
{
}

} // verus!
