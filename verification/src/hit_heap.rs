use crate::heap_item::{item_le, PartialHitHeapItem};
use vstd::multiset::Multiset;
use vstd::prelude::*;
use vstd::seq_lib::{to_multiset_build, to_multiset_contains, to_multiset_len, to_multiset_update};

verus! {

/// `head` is in `items` and no item of `items` is greater: `head` is the
/// worst hit that `items` holds.
pub open spec fn is_greatest(items: Multiset<PartialHitHeapItem>, head: PartialHitHeapItem) -> bool {
    items.count(head) > 0 && forall|x: PartialHitHeapItem| #[trigger]
        items.count(x) > 0 ==> item_le(x, head)
}

/// The greatest item of `items`, where there is one.
pub open spec fn greatest(items: Multiset<PartialHitHeapItem>) -> PartialHitHeapItem {
    choose|head: PartialHitHeapItem| is_greatest(items, head)
}

/// A collection that is not empty has a greatest item.
pub proof fn lemma_greatest_exists(items: Multiset<PartialHitHeapItem>)
    requires
        items.len() > 0,
    ensures
        is_greatest(items, greatest(items)),
    decreases items.len(),
{
    broadcast use vstd::multiset::group_multiset_axioms;

    let x = items.choose();
    let rest = items.remove(x);
    if rest.len() == 0 {
        assert forall|y: PartialHitHeapItem| #[trigger] items.count(y) > 0 implies item_le(
            y,
            x,
        ) by {
            if y != x {
                assert(rest.count(y) > 0);
            }
        }
        assert(is_greatest(items, x));
    } else {
        lemma_greatest_exists(rest);
        let g = greatest(rest);
        let top = if item_le(x, g) { g } else { x };
        assert forall|y: PartialHitHeapItem| #[trigger] items.count(y) > 0 implies item_le(
            y,
            top,
        ) by {
            if y != x {
                assert(rest.count(y) > 0);
            }
        }
        assert(is_greatest(items, top));
    }
}

/// `items` runs from the best hit to the worst.
pub open spec fn is_ranked(items: Seq<PartialHitHeapItem>) -> bool {
    forall|i: int, j: int| 0 <= i < j < items.len() ==> item_le(#[trigger] items[i], #[trigger] items[j])
}

spec fn parent(i: int) -> int {
    (i - 1) / 2
}

/// The first `n` items form a binary heap with the greatest item at the root.
spec fn heap_ordered(s: Seq<PartialHitHeapItem>, n: int) -> bool {
    forall|i: int| 0 < i < n ==> item_le(#[trigger] s[i], s[parent(i)])
}

/// The heap order holds among the first `n` items wherever `hole` is not the
/// child, and the children of `hole` are no greater than its parent.
spec fn ordered_but_child(s: Seq<PartialHitHeapItem>, n: int, hole: int) -> bool {
    &&& forall|i: int| 0 < i < n && i != hole ==> item_le(#[trigger] s[i], s[parent(i)])
    &&& forall|i: int|
        0 < i < n && parent(i) == hole && hole > 0 ==> item_le(#[trigger] s[i], s[parent(hole)])
}

/// The heap order holds among the first `n` items wherever `hole` is not the
/// parent, and the children of `hole` are no greater than its parent.
spec fn ordered_but_parent(s: Seq<PartialHitHeapItem>, n: int, hole: int) -> bool {
    &&& forall|i: int| 0 < i < n && parent(i) != hole ==> item_le(#[trigger] s[i], s[parent(i)])
    &&& forall|i: int|
        0 < i < n && parent(i) == hole && hole > 0 ==> item_le(#[trigger] s[i], s[parent(hole)])
}

proof fn lemma_root_is_greatest(s: Seq<PartialHitHeapItem>, n: int, k: int)
    requires
        heap_ordered(s, n),
        0 <= k < n <= s.len(),
    ensures
        item_le(s[k], s[0]),
    decreases k,
{
    if k > 0 {
        lemma_root_is_greatest(s, n, parent(k));
    }
}

proof fn lemma_heap_head(s: Seq<PartialHitHeapItem>)
    requires
        heap_ordered(s, s.len() as int),
        s.len() > 0,
    ensures
        is_greatest(s.to_multiset(), s[0]),
{
    broadcast use to_multiset_contains;

    assert forall|x: PartialHitHeapItem| #[trigger] s.to_multiset().count(x) > 0 implies item_le(
        x,
        s[0],
    ) by {
        let k = choose|k: int| 0 <= k < s.len() && s[k] == x;
        lemma_root_is_greatest(s, s.len() as int, k);
    }
}

proof fn lemma_swap_keeps_items(s: Seq<PartialHitHeapItem>, i: int, j: int)
    requires
        0 <= i < s.len(),
        0 <= j < s.len(),
    ensures
        s.update(i, s[j]).update(j, s[i]).to_multiset() == s.to_multiset(),
{
    broadcast use vstd::multiset::group_multiset_axioms;

    let s1 = s.update(i, s[j]);
    to_multiset_update(s, i, s[j]);
    to_multiset_update(s1, j, s[i]);
    assert(s.to_multiset().count(s[i]) > 0 && s.to_multiset().count(s[j]) > 0) by {
        broadcast use to_multiset_contains;

    }
}

/// Exchanges two items.
fn swap_items(items: &mut Vec<PartialHitHeapItem>, i: usize, j: usize)
    requires
        i < old(items).len(),
        j < old(items).len(),
    ensures
        final(items)@ == old(items)@.update(i as int, old(items)@[j as int]).update(
            j as int,
            old(items)@[i as int],
        ),
        final(items)@.to_multiset() == old(items)@.to_multiset(),
        forall|end: int|
            i < end <= old(items).len() && j < end ==> #[trigger] final(items)@.take(
                end,
            ).to_multiset() == old(items)@.take(end).to_multiset(),
{
    let a = items[i];
    let b = items[j];
    items.set(i, b);
    items.set(j, a);
    proof {
        let s = old(items)@;
        lemma_swap_keeps_items(s, i as int, j as int);
        assert forall|end: int| i < end <= s.len() && j < end implies #[trigger] items@.take(
            end,
        ).to_multiset() == s.take(end).to_multiset() by {
            let t = s.take(end);
            lemma_swap_keeps_items(t, i as int, j as int);
            assert(items@.take(end) =~= t.update(i as int, t[j as int]).update(j as int, t[i as int]));
        }
    }
}

/// Moves the item at `pos` towards the root until its parent is no smaller.
fn sift_up(items: &mut Vec<PartialHitHeapItem>, pos: usize)
    requires
        pos < old(items).len(),
        ordered_but_child(old(items)@, old(items).len() as int, pos as int),
    ensures
        final(items).len() == old(items).len(),
        final(items)@.to_multiset() == old(items)@.to_multiset(),
        heap_ordered(final(items)@, final(items).len() as int),
{
    let n = items.len();
    let mut pos = pos;
    let mut settled = pos == 0;
    while !settled
        invariant
            items.len() == n,
            pos < n,
            items@.to_multiset() == old(items)@.to_multiset(),
            !settled ==> pos > 0,
            !settled ==> ordered_but_child(items@, n as int, pos as int),
            settled ==> heap_ordered(items@, n as int),
        decreases pos + (if settled { 0int } else { 1int }),
    {
        let up = (pos - 1) / 2;
        if items[pos].le(&items[up]) {
            settled = true;
        } else {
            swap_items(items, pos, up);
            pos = up;
            if pos == 0 {
                settled = true;
            }
        }
    }
}

/// Moves the item at `pos` away from the root, within the first `end` items,
/// until neither child is greater.
fn sift_down(items: &mut Vec<PartialHitHeapItem>, pos: usize, end: usize)
    requires
        pos < end <= old(items).len(),
        ordered_but_parent(old(items)@, end as int, pos as int),
    ensures
        final(items).len() == old(items).len(),
        final(items)@.to_multiset() == old(items)@.to_multiset(),
        final(items)@.take(end as int).to_multiset() == old(items)@.take(end as int).to_multiset(),
        final(items)@.skip(end as int) == old(items)@.skip(end as int),
        heap_ordered(final(items)@, end as int),
{
    let n = items.len();
    let mut pos = pos;
    let mut settled = false;
    while !settled
        invariant
            items.len() == n,
            pos < end <= n,
            items@.to_multiset() == old(items)@.to_multiset(),
            items@.take(end as int).to_multiset() == old(items)@.take(end as int).to_multiset(),
            items@.skip(end as int) == old(items)@.skip(end as int),
            !settled ==> ordered_but_parent(items@, end as int, pos as int),
            settled ==> heap_ordered(items@, end as int),
        decreases end - pos + (if settled { 0int } else { 1int }),
    {
        if pos >= end / 2 {
            settled = true;
        } else {
            let left = 2 * pos + 1;
            let right = left + 1;
            let mut child = left;
            if right < end && !items[right].le(&items[left]) {
                child = right;
            }
            if items[child].le(&items[pos]) {
                settled = true;
            } else {
                swap_items(items, pos, child);
                pos = child;
            }
        }
    }
}

/// The candidate hits of a segment collector, kept so that the worst of them
/// is at hand. Its view is the collection of the items it holds.
pub struct PartialHitHeap {
    items: Vec<PartialHitHeapItem>,
}

impl View for PartialHitHeap {
    type V = Multiset<PartialHitHeapItem>;

    closed spec fn view(&self) -> Multiset<PartialHitHeapItem> {
        self.items@.to_multiset()
    }
}

impl PartialHitHeap {
    #[verifier::type_invariant]
    spec fn heap_invariant(self) -> bool {
        heap_ordered(self.items@, self.items@.len() as int)
    }

    /// An empty heap with room for `capacity` items.
    pub fn with_capacity(capacity: usize) -> (heap: PartialHitHeap)
        ensures
            heap@ == Multiset::<PartialHitHeapItem>::empty(),
    {
        let heap = PartialHitHeap { items: Vec::with_capacity(capacity) };
        proof {
            to_multiset_len(heap.items@);
        }
        heap
    }

    /// The number of items held.
    pub fn len(&self) -> (len: usize)
        ensures
            len == self@.len(),
    {
        proof {
            to_multiset_len(self.items@);
        }
        self.items.len()
    }

    /// The worst hit held, if any.
    pub fn peek(&self) -> (head: Option<PartialHitHeapItem>)
        ensures
            self@.len() == 0 ==> head.is_none(),
            self@.len() > 0 ==> head == Some(greatest(self@)) && is_greatest(self@, greatest(self@)),
    {
        proof {
            use_type_invariant(self);
            to_multiset_len(self.items@);
        }
        if self.items.len() == 0 {
            None
        } else {
            proof {
                lemma_heap_head(self.items@);
            }
            Some(self.items[0])
        }
    }

    /// Adds an item.
    pub fn push(&mut self, item: PartialHitHeapItem)
        ensures
            final(self)@ == old(self)@.insert(item),
    {
        proof {
            use_type_invariant(&*self);
        }
        let mut items: Vec<PartialHitHeapItem> = Vec::new();
        std::mem::swap(&mut self.items, &mut items);
        push_item(&mut items, item);
        self.items = items;
    }

    /// Puts `item` in the place of the worst hit held.
    pub fn replace_head(&mut self, item: PartialHitHeapItem)
        requires
            old(self)@.len() > 0,
        ensures
            final(self)@ == old(self)@.remove(greatest(old(self)@)).insert(item),
    {
        proof {
            use_type_invariant(&*self);
            to_multiset_len(self.items@);
            lemma_heap_head(self.items@);
        }
        let mut items: Vec<PartialHitHeapItem> = Vec::new();
        std::mem::swap(&mut self.items, &mut items);
        replace_root(&mut items, item);
        self.items = items;
    }

    /// Takes the items out, from the best hit to the worst.
    pub fn into_sorted_vec(self) -> (sorted: Vec<PartialHitHeapItem>)
        ensures
            sorted@.to_multiset() == self@,
            is_ranked(sorted@),
    {
        proof {
            use_type_invariant(&self);
        }
        let mut items = self.items;
        let n = items.len();
        let mut end = n;
        while end > 1
            invariant
                items.len() == n,
                end <= n,
                items@.to_multiset() == self.items@.to_multiset(),
                heap_ordered(items@, end as int),
                forall|i: int, j: int|
                    end <= i < j < n ==> item_le(#[trigger] items@[i], #[trigger] items@[j]),
                forall|i: int, j: int|
                    0 <= i < end <= j < n ==> item_le(#[trigger] items@[i], #[trigger] items@[j]),
            decreases end,
        {
            let ghost before = items@;
            proof {
                assert forall|i: int| 0 <= i < end implies item_le(
                    #[trigger] before[i],
                    before[0],
                ) by {
                    lemma_root_is_greatest(before, end as int, i);
                }
            }
            end = end - 1;
            swap_items(&mut items, 0, end);
            let ghost swapped = items@;
            sift_down(&mut items, 0, end);
            proof {
                assert(items@[end as int] == swapped[end as int]) by {
                    assert(items@.skip(end as int)[0] == swapped.skip(end as int)[0]);
                }
                assert forall|j: int| end < j < n implies #[trigger] items@[j] == before[j] by {
                    assert(items@.skip(end as int)[j - end] == swapped.skip(end as int)[j - end]);
                }
                assert forall|i: int, j: int| 0 <= i < end <= j < n implies item_le(
                    #[trigger] items@[i],
                    #[trigger] items@[j],
                ) by {
                    broadcast use to_multiset_contains;

                    let x = items@[i];
                    assert(items@.take(end as int)[i] == x);
                    assert(swapped.take(end as int).to_multiset().count(x) > 0);
                }
            }
        }
        items
    }
}

/// Adds `item` to a heap.
fn push_item(items: &mut Vec<PartialHitHeapItem>, item: PartialHitHeapItem)
    requires
        heap_ordered(old(items)@, old(items).len() as int),
    ensures
        heap_ordered(final(items)@, final(items).len() as int),
        final(items)@.to_multiset() == old(items)@.to_multiset().insert(item),
{
    items.push(item);
    proof {
        to_multiset_build(old(items)@, item);
    }
    let last = items.len() - 1;
    sift_up(items, last);
}

/// Puts `item` at the root of a heap and restores the order.
fn replace_root(items: &mut Vec<PartialHitHeapItem>, item: PartialHitHeapItem)
    requires
        old(items).len() > 0,
        heap_ordered(old(items)@, old(items).len() as int),
    ensures
        heap_ordered(final(items)@, final(items).len() as int),
        final(items)@.to_multiset() == old(items)@.to_multiset().remove(old(items)@[0]).insert(
            item,
        ),
{
    items.set(0, item);
    proof {
        broadcast use vstd::multiset::group_multiset_axioms;
        broadcast use to_multiset_contains;

        to_multiset_update(old(items)@, 0, item);
    }
    let n = items.len();
    sift_down(items, 0, n);
}

} // verus!
