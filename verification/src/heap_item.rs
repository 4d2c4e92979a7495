use std::cmp::Ordering;
use vstd::prelude::*;

verus! {

/// A candidate hit inside a segment collector: the ranking key of a document
/// and its id. Items are ordered worst hit last, so that the greatest item of
/// a collection is the one to evict.
#[derive(Clone, Copy, Debug, PartialEq, Eq, Structural)]
pub struct PartialHitHeapItem {
    pub sorting_field_value: u64,
    pub doc_id: u32,
}

/// `a` is a better hit than `b`: its key is larger, or the keys are equal and
/// its document id is smaller.
pub open spec fn ranks_before(a: PartialHitHeapItem, b: PartialHitHeapItem) -> bool {
    a.sorting_field_value > b.sorting_field_value || (a.sorting_field_value
        == b.sorting_field_value && a.doc_id < b.doc_id)
}

/// `a` is `b` or a better hit than `b`: the order of the items, in which the
/// best hit is the least.
pub open spec fn item_le(a: PartialHitHeapItem, b: PartialHitHeapItem) -> bool {
    a == b || ranks_before(a, b)
}

impl PartialHitHeapItem {
    /// Compares two items: first by key, the larger key being the lesser
    /// item, then by document id, the smaller id being the lesser item.
    pub fn cmp(&self, other: &Self) -> (ordering: Ordering)
        ensures
            ordering == Ordering::Less <==> ranks_before(*self, *other),
            ordering == Ordering::Equal <==> *self == *other,
            ordering == Ordering::Greater <==> ranks_before(*other, *self),
    {
        if other.sorting_field_value < self.sorting_field_value {
            Ordering::Less
        } else if other.sorting_field_value > self.sorting_field_value {
            Ordering::Greater
        } else if self.doc_id < other.doc_id {
            Ordering::Less
        } else if self.doc_id > other.doc_id {
            Ordering::Greater
        } else {
            Ordering::Equal
        }
    }

    /// Whether `self` is `other` or a better hit than `other`.
    pub fn le(&self, other: &Self) -> (le: bool)
        ensures
            le == item_le(*self, *other),
    {
        other.sorting_field_value < self.sorting_field_value || (other.sorting_field_value
            == self.sorting_field_value && self.doc_id <= other.doc_id)
    }
}

/// The order of the items is total: any two items are comparable, two items
/// that are each no greater than the other are the same item, and the order
/// is transitive.
pub proof fn lemma_item_order_total(
    a: PartialHitHeapItem,
    b: PartialHitHeapItem,
    c: PartialHitHeapItem,
)
    ensures
        item_le(a, a),
        item_le(a, b) || item_le(b, a),
        item_le(a, b) && item_le(b, a) ==> a == b,
        item_le(a, b) && item_le(b, c) ==> item_le(a, c),
        ranks_before(a, b) <==> !item_le(b, a),
{
}

} // verus!
