use std::cmp::Ordering;

use leaf_collector::heap_item::PartialHitHeapItem;
use leaf_collector::hit_heap::PartialHitHeap;

fn item(sorting_field_value: u64, doc_id: u32) -> PartialHitHeapItem {
    PartialHitHeapItem {
        sorting_field_value,
        doc_id,
    }
}

#[test]
fn test_partial_hit_ordered_by_sorting_field() {
    let lesser_score = PartialHitHeapItem {
        sorting_field_value: 1u64,
        doc_id: 1u32,
    };
    let higher_score = PartialHitHeapItem {
        sorting_field_value: 2u64,
        doc_id: 1u32,
    };
    assert_eq!(lesser_score.cmp(&higher_score), Ordering::Greater);
}

#[test]
fn test_heap_item_cmp_is_reversed_on_key() {
    assert_eq!(item(2, 1).cmp(&item(1, 1)), Ordering::Less);
    assert_eq!(item(7, 9).cmp(&item(7, 9)), Ordering::Equal);
    assert_eq!(item(0, 0).cmp(&item(u64::MAX, 0)), Ordering::Greater);
}

#[test]
fn test_heap_item_cmp_breaks_ties_by_ascending_doc_id() {
    assert_eq!(item(5, 1).cmp(&item(5, 2)), Ordering::Less);
    assert_eq!(item(5, 2).cmp(&item(5, 1)), Ordering::Greater);
    // The key decides before the document id does.
    assert_eq!(item(6, 100).cmp(&item(5, 1)), Ordering::Less);
}

#[test]
fn test_heap_item_le_agrees_with_cmp() {
    let items = [item(1, 1), item(1, 2), item(2, 1), item(2, 2), item(0, 7)];
    for a in items.iter() {
        for b in items.iter() {
            assert_eq!(a.le(b), a.cmp(b) != Ordering::Greater);
        }
    }
}

#[test]
fn test_heap_item_eq_is_cmp_equal() {
    let items = [item(1, 1), item(1, 2), item(2, 1)];
    for a in items.iter() {
        for b in items.iter() {
            assert_eq!(a == b, a.cmp(b) == Ordering::Equal);
        }
    }
}

#[test]
fn test_heap_starts_empty() {
    let heap = PartialHitHeap::with_capacity(4);
    assert_eq!(heap.len(), 0);
    assert_eq!(heap.peek(), None);
    assert_eq!(heap.into_sorted_vec(), Vec::new());
}

#[test]
fn test_heap_peek_is_the_worst_hit() {
    let mut heap = PartialHitHeap::with_capacity(4);
    heap.push(item(5, 1));
    assert_eq!(heap.peek(), Some(item(5, 1)));
    heap.push(item(3, 2));
    assert_eq!(heap.peek(), Some(item(3, 2)));
    heap.push(item(9, 3));
    assert_eq!(heap.peek(), Some(item(3, 2)));
    // Among equal keys the larger document id is the worse hit.
    heap.push(item(3, 4));
    assert_eq!(heap.peek(), Some(item(3, 4)));
    assert_eq!(heap.len(), 4);
}

#[test]
fn test_heap_replace_head_evicts_the_worst_hit() {
    let mut heap = PartialHitHeap::with_capacity(3);
    heap.push(item(5, 1));
    heap.push(item(3, 2));
    heap.push(item(9, 3));
    heap.replace_head(item(4, 7));
    assert_eq!(heap.len(), 3);
    assert_eq!(heap.peek(), Some(item(4, 7)));
    assert_eq!(
        heap.into_sorted_vec(),
        vec![item(9, 3), item(5, 1), item(4, 7)]
    );
}

#[test]
fn test_heap_into_sorted_vec_runs_from_best_to_worst() {
    let mut heap = PartialHitHeap::with_capacity(0);
    let keys: [u64; 12] = [7, 3, 9, 1, 9, 4, 0, 12, 5, 3, 8, 2];
    for (doc_id, key) in keys.iter().enumerate() {
        heap.push(item(*key, doc_id as u32));
    }
    let sorted = heap.into_sorted_vec();
    assert_eq!(
        sorted,
        vec![
            item(12, 7),
            item(9, 2),
            item(9, 4),
            item(8, 10),
            item(7, 0),
            item(5, 8),
            item(4, 5),
            item(3, 1),
            item(3, 9),
            item(2, 11),
            item(1, 3),
            item(0, 6),
        ]
    );
}

#[test]
fn test_heap_keeps_duplicates() {
    let mut heap = PartialHitHeap::with_capacity(2);
    heap.push(item(1, 1));
    heap.push(item(1, 1));
    heap.push(item(2, 1));
    assert_eq!(heap.len(), 3);
    assert_eq!(
        heap.into_sorted_vec(),
        vec![item(2, 1), item(1, 1), item(1, 1)]
    );
}

#[test]
fn test_heap_many_items_against_a_sort() {
    let mut heap = PartialHitHeap::with_capacity(16);
    let mut expected: Vec<PartialHitHeapItem> = Vec::new();
    let mut state: u64 = 0x2545_F491_4F6C_DD1D;
    for doc_id in 0..500u32 {
        state ^= state << 13;
        state ^= state >> 7;
        state ^= state << 17;
        let candidate = item(state % 50, doc_id);
        heap.push(candidate);
        expected.push(candidate);
    }
    expected.sort_by(|a, b| a.cmp(b));
    assert_eq!(heap.into_sorted_vec(), expected);
}
