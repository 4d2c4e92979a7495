use crate::heap_item::{ranks_before, PartialHitHeapItem};
use crate::hit_heap::{greatest, lemma_greatest_exists};
use vstd::multiset::Multiset;
use vstd::prelude::*;
use vstd::seq_lib::{to_multiset_build, to_multiset_contains, to_multiset_len};

verus! {

/// What a bounded collection of candidates holds after `item` was offered to
/// it. Below `capacity` the item is added. At capacity it takes the place of
/// the worst candidate if its key is larger than that candidate's; an item
/// whose key is equal or smaller is dropped.
pub open spec fn top_k_insert(
    hits: Multiset<PartialHitHeapItem>,
    capacity: nat,
    item: PartialHitHeapItem,
) -> Multiset<PartialHitHeapItem> {
    if hits.len() < capacity {
        hits.insert(item)
    } else if hits.len() > 0 && greatest(hits).sorting_field_value < item.sorting_field_value {
        hits.remove(greatest(hits)).insert(item)
    } else {
        hits
    }
}

/// What a bounded collection of candidates holds after the items of `items`
/// were offered to it in turn, starting empty.
pub open spec fn top_k_fold(items: Seq<PartialHitHeapItem>, capacity: nat) -> Multiset<
    PartialHitHeapItem,
>
    decreases items.len(),
{
    if items.len() == 0 {
        Multiset::empty()
    } else {
        top_k_insert(top_k_fold(items.drop_last(), capacity), capacity, items.last())
    }
}

/// The smaller of two numbers.
pub open spec fn at_most(limit: nat, count: nat) -> nat {
    if limit <= count {
        limit
    } else {
        count
    }
}

/// The document ids of `items` grow from each item to the next, as they do
/// when a segment is scanned.
pub open spec fn ascending_doc_ids(items: Seq<PartialHitHeapItem>) -> bool {
    forall|i: int, j: int|
        0 <= i < j < items.len() ==> (#[trigger] items[i]).doc_id < (#[trigger] items[j]).doc_id
}

/// All items of `items` have the same key.
pub open spec fn same_key(items: Seq<PartialHitHeapItem>) -> bool {
    forall|i: int, j: int|
        0 <= i < items.len() && 0 <= j < items.len() ==> (#[trigger] items[i]).sorting_field_value
            == (#[trigger] items[j]).sorting_field_value
}

/// Offering an item keeps a collection within its capacity.
pub proof fn lemma_top_k_insert_bounded(
    hits: Multiset<PartialHitHeapItem>,
    capacity: nat,
    item: PartialHitHeapItem,
)
    requires
        hits.len() <= capacity,
    ensures
        top_k_insert(hits, capacity, item).len() <= capacity,
        top_k_insert(hits, capacity, item).len() == at_most(capacity, hits.len() + 1),
{
    broadcast use vstd::multiset::group_multiset_axioms;

    if hits.len() >= capacity && hits.len() > 0 {
        lemma_greatest_exists(hits);
    }
}

/// However many items are offered, the collection holds as many of them as
/// its capacity allows, and never more.
pub proof fn lemma_top_k_fold_len(items: Seq<PartialHitHeapItem>, capacity: nat)
    ensures
        top_k_fold(items, capacity).len() == at_most(capacity, items.len()),
    decreases items.len(),
{
    broadcast use vstd::multiset::group_multiset_axioms;

    if items.len() > 0 {
        lemma_top_k_fold_len(items.drop_last(), capacity);
        lemma_top_k_insert_bounded(
            top_k_fold(items.drop_last(), capacity),
            capacity,
            items.last(),
        );
    }
}

/// Among items of one key, those that were offered first stay: the
/// collection holds the first items, as many as its capacity allows. Where
/// the document ids ascend, these are the items with the smallest ids.
pub proof fn lemma_ties_keep_the_first(items: Seq<PartialHitHeapItem>, capacity: nat)
    requires
        same_key(items),
    ensures
        top_k_fold(items, capacity) == items.take(
            at_most(capacity, items.len()) as int,
        ).to_multiset(),
        ascending_doc_ids(items) ==> forall|i: int, j: int|
            0 <= i < at_most(capacity, items.len()) <= j < items.len() ==> (#[trigger] items[i]).doc_id
                < (#[trigger] items[j]).doc_id,
    decreases items.len(),
{
    broadcast use vstd::multiset::group_multiset_axioms;

    if items.len() == 0 {
        assert(items.take(0) =~= items);
        to_multiset_len(items);
    } else {
        let earlier = items.drop_last();
        let last = items.last();
        lemma_ties_keep_the_first(earlier, capacity);
        let kept = top_k_fold(earlier, capacity);
        let count = at_most(capacity, earlier.len());
        to_multiset_len(earlier.take(count as int));
        if kept.len() < capacity {
            assert(earlier.take(count as int) =~= earlier);
            to_multiset_build(earlier, last);
            assert(earlier.push(last) =~= items);
            assert(items.take(items.len() as int) =~= items);
        } else {
            assert(items.take(capacity as int) =~= earlier.take(capacity as int));
            if kept.len() > 0 {
                lemma_greatest_exists(kept);
                let worst = greatest(kept);
                to_multiset_contains(earlier.take(count as int), worst);
            }
        }
    }
}

/// An item that is offered after `items` is none of the items kept, where
/// document ids ascend.
proof fn lemma_later_item_is_new(items: Seq<PartialHitHeapItem>, x: PartialHitHeapItem)
    requires
        ascending_doc_ids(items),
        items.len() > 0,
        items.drop_last().to_multiset().count(x) > 0,
    ensures
        x.doc_id < items.last().doc_id,
{
    let earlier = items.drop_last();
    to_multiset_contains(earlier, x);
}

/// Each item of `items` occurs once, where document ids ascend.
proof fn lemma_ascending_items_are_distinct(items: Seq<PartialHitHeapItem>, x: PartialHitHeapItem)
    requires
        ascending_doc_ids(items),
    ensures
        items.to_multiset().count(x) <= 1,
{
    broadcast use vstd::multiset::group_multiset_axioms;

    items.lemma_multiset_has_no_duplicates();
}

/// A segment scan keeps the best hits. Where the document ids of the items
/// ascend, the collection holds, of the items offered, as many as its
/// capacity allows, and each item that it holds is a better hit than each
/// item that it does not hold.
pub proof fn lemma_top_k_keeps_the_best(items: Seq<PartialHitHeapItem>, capacity: nat)
    requires
        ascending_doc_ids(items),
    ensures
        top_k_fold(items, capacity).subset_of(items.to_multiset()),
        top_k_fold(items, capacity).len() == at_most(capacity, items.len()),
        forall|x: PartialHitHeapItem, y: PartialHitHeapItem|
            #![trigger top_k_fold(items, capacity).count(x), items.to_multiset().count(y)]
            top_k_fold(items, capacity).count(x) > 0 && items.to_multiset().count(y) > top_k_fold(
                items,
                capacity,
            ).count(y) ==> ranks_before(x, y),
    decreases items.len(),
{
    broadcast use vstd::multiset::group_multiset_axioms;

    if items.len() > 0 {
        let earlier = items.drop_last();
        let last = items.last();
        lemma_top_k_keeps_the_best(earlier, capacity);
        let offered = earlier.to_multiset();
        let kept = top_k_fold(earlier, capacity);
        let all = items.to_multiset();
        assert(all =~= offered.insert(last)) by {
            to_multiset_build(earlier, last);
            assert(earlier.push(last) =~= items);
        }
        to_multiset_len(earlier);
        assert forall|x: PartialHitHeapItem| offered.count(x) <= 1 by {
            lemma_ascending_items_are_distinct(earlier, x);
        }
        if kept.len() < capacity {
            // Everything offered so far is held.
            assert(kept =~= offered) by {
                let missing = offered.sub(kept);
                assert(missing.len() == 0);
                assert forall|v: PartialHitHeapItem| kept.count(v) == offered.count(v) by {
                    if kept.count(v) < offered.count(v) {
                        assert(missing.count(v) > 0);
                    }
                }
            }
        } else if kept.len() > 0 {
            lemma_greatest_exists(kept);
            let worst = greatest(kept);
            lemma_later_item_is_new(items, worst);
        }
    }
}

} // verus!
