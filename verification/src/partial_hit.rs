use vstd::prelude::*;
use vstd::relations::total_ordering;
use vstd::utf8::{encode_utf8, encode_utf8_decode_utf8};

verus! {

/// A ranked reference to a document: where it lives (split, segment,
/// document id) and the key by which it ranks. A larger key is a better hit.
#[derive(Clone, Debug, PartialEq, Eq)]
pub struct PartialHit {
    pub sorting_field_value: u64,
    pub doc_id: u32,
    pub segment_ord: u32,
    pub split_id: String,
}

/// What a `PartialHit` stands for.
pub struct PartialHitView {
    pub sorting_field_value: u64,
    pub doc_id: u32,
    pub segment_ord: u32,
    pub split_id: Seq<char>,
}

impl View for PartialHit {
    type V = PartialHitView;

    open spec fn view(&self) -> PartialHitView {
        PartialHitView {
            sorting_field_value: self.sorting_field_value,
            doc_id: self.doc_id,
            segment_ord: self.segment_ord,
            split_id: self.split_id@,
        }
    }
}

/// The hits that a vector of `PartialHit` stands for.
pub open spec fn hit_views(hits: Seq<PartialHit>) -> Seq<PartialHitView> {
    hits.map_values(|hit: PartialHit| hit@)
}

/// `a` comes no later than `b` when byte strings are ordered by their first
/// differing byte, a proper prefix coming first.
pub open spec fn bytes_le(a: Seq<u8>, b: Seq<u8>) -> bool
    decreases a.len(),
{
    if a.len() == 0 {
        true
    } else if b.len() == 0 {
        false
    } else if a[0] != b[0] {
        a[0] < b[0]
    } else {
        bytes_le(a.drop_first(), b.drop_first())
    }
}

/// `a` ranks no later than `b` in a merged result: by key, the larger first;
/// then by split id, as byte strings; then by segment; then by document id.
pub open spec fn hit_le(a: PartialHitView, b: PartialHitView) -> bool {
    let a_split = encode_utf8(a.split_id);
    let b_split = encode_utf8(b.split_id);
    if a.sorting_field_value != b.sorting_field_value {
        a.sorting_field_value > b.sorting_field_value
    } else if a_split != b_split {
        bytes_le(a_split, b_split)
    } else if a.segment_ord != b.segment_ord {
        a.segment_ord < b.segment_ord
    } else {
        a.doc_id <= b.doc_id
    }
}

/// `hit_le` as a relation.
pub open spec fn hit_order() -> spec_fn(PartialHitView, PartialHitView) -> bool {
    |a: PartialHitView, b: PartialHitView| hit_le(a, b)
}

/// The composite by which hits are sorted into ascending order: the key
/// turned over, the split id's bytes, the segment, the document id.
pub open spec fn partial_hit_sorting_key(hit: PartialHitView) -> (int, Seq<u8>, u32, u32) {
    (u64::MAX - hit.sorting_field_value, encode_utf8(hit.split_id), hit.segment_ord, hit.doc_id)
}

/// `a` comes no later than `b` when composites are compared part by part,
/// the first part that differs deciding.
pub open spec fn sorting_key_le(a: (int, Seq<u8>, u32, u32), b: (int, Seq<u8>, u32, u32)) -> bool {
    if a.0 != b.0 {
        a.0 < b.0
    } else if a.1 != b.1 {
        bytes_le(a.1, b.1)
    } else if a.2 != b.2 {
        a.2 < b.2
    } else {
        a.3 <= b.3
    }
}

/// To rank hits is to put their composites in ascending order.
pub proof fn lemma_hit_le_is_key_order(a: PartialHitView, b: PartialHitView)
    ensures
        hit_le(a, b) <==> sorting_key_le(partial_hit_sorting_key(a), partial_hit_sorting_key(b)),
{
}

proof fn lemma_bytes_le_total(a: Seq<u8>, b: Seq<u8>)
    ensures
        bytes_le(a, b) || bytes_le(b, a),
        bytes_le(a, b) && bytes_le(b, a) ==> a == b,
    decreases a.len(),
{
    if a.len() == 0 || b.len() == 0 {
    } else if a[0] == b[0] {
        lemma_bytes_le_total(a.drop_first(), b.drop_first());
        if a.drop_first() == b.drop_first() {
            assert(b =~= seq![b[0]] + b.drop_first());
        }
    }
}

proof fn lemma_bytes_le_transitive(a: Seq<u8>, b: Seq<u8>, c: Seq<u8>)
    requires
        bytes_le(a, b),
        bytes_le(b, c),
    ensures
        bytes_le(a, c),
    decreases a.len(),
{
    if a.len() > 0 && b.len() > 0 && c.len() > 0 && a[0] == b[0] && b[0] == c[0] {
        lemma_bytes_le_transitive(a.drop_first(), b.drop_first(), c.drop_first());
    }
}

proof fn lemma_bytes_le_reflexive(a: Seq<u8>)
    ensures
        bytes_le(a, a),
    decreases a.len(),
{
    if a.len() > 0 {
        lemma_bytes_le_reflexive(a.drop_first());
    }
}

/// The order of merged hits is total: it compares any two hits, it is
/// transitive, and two hits that each rank no later than the other are the
/// same hit.
pub proof fn lemma_hit_order_total()
    ensures
        total_ordering(hit_order()),
{
    let r = hit_order();
    assert forall|x: PartialHitView, y: PartialHitView| #[trigger] r(x, y) && #[trigger] r(
        y,
        x,
    ) implies x == y by {
        lemma_bytes_le_total(encode_utf8(x.split_id), encode_utf8(y.split_id));
        encode_utf8_decode_utf8(x.split_id);
        encode_utf8_decode_utf8(y.split_id);
    }
    assert forall|x: PartialHitView, y: PartialHitView, z: PartialHitView| #[trigger]
        r(x, y) && #[trigger] r(y, z) implies r(x, z) by {
        let xs = encode_utf8(x.split_id);
        let ys = encode_utf8(y.split_id);
        let zs = encode_utf8(z.split_id);
        lemma_bytes_le_total(ys, zs);
        if x.sorting_field_value == y.sorting_field_value && y.sorting_field_value
            == z.sorting_field_value {
            if bytes_le(xs, ys) && bytes_le(ys, zs) {
                lemma_bytes_le_transitive(xs, ys, zs);
            }
        }
    }
    assert forall|x: PartialHitView, y: PartialHitView| #[trigger] r(x, y) || #[trigger] r(
        y,
        x,
    ) by {
        lemma_bytes_le_total(encode_utf8(x.split_id), encode_utf8(y.split_id));
    }
}

proof fn lemma_bytes_le_after_common_prefix(a: Seq<u8>, b: Seq<u8>, k: usize)
    requires
        k <= a.len(),
        k <= b.len(),
        a.take(k as int) == b.take(k as int),
    ensures
        bytes_le(a, b) == bytes_le(a.skip(k as int), b.skip(k as int)),
    decreases k,
{
    if k == 0 {
        assert(a.skip(0) =~= a);
        assert(b.skip(0) =~= b);
    } else {
        assert(b[0] == b.take(k as int)[0]);
        let a1 = a.drop_first();
        let b1 = b.drop_first();
        let k1 = (k - 1) as usize;
        assert(a1.take(k1 as int) =~= a.take(k as int).drop_first());
        assert(b1.take(k1 as int) =~= b.take(k as int).drop_first());
        lemma_bytes_le_after_common_prefix(a1, b1, k1);
        assert(a1.skip(k1 as int) =~= a.skip(k as int));
        assert(b1.skip(k1 as int) =~= b.skip(k as int));
    }
}

/// Whether `a` comes no later than `b` as a byte string.
fn bytes_no_later(a: &[u8], b: &[u8]) -> (le: bool)
    ensures
        le == bytes_le(a@, b@),
{
    let mut i: usize = 0;
    while i < a.len() && i < b.len() && a[i] == b[i]
        invariant
            i <= a.len(),
            i <= b.len(),
            a@.take(i as int) == b@.take(i as int),
        decreases a.len() - i,
    {
        i += 1;
    }
    proof {
        lemma_bytes_le_after_common_prefix(a@, b@, i);
    }
    if i == a.len() {
        true
    } else if i == b.len() {
        false
    } else {
        a[i] < b[i]
    }
}

/// Whether `a` ranks no later than `b` in a merged result.
pub fn partial_hit_le(a: &PartialHit, b: &PartialHit) -> (le: bool)
    ensures
        le == hit_le(a@, b@),
{
    if a.sorting_field_value != b.sorting_field_value {
        return a.sorting_field_value > b.sorting_field_value;
    }
    let a_split = a.split_id.as_str().as_bytes();
    let b_split = b.split_id.as_str().as_bytes();
    let forward = bytes_no_later(a_split, b_split);
    let backward = bytes_no_later(b_split, a_split);
    proof {
        lemma_bytes_le_total(a_split@, b_split@);
    }
    if !(forward && backward) {
        forward
    } else if a.segment_ord != b.segment_ord {
        a.segment_ord < b.segment_ord
    } else {
        a.doc_id <= b.doc_id
    }
}

} // verus!
