use crate::aggregation::{
    is_harvest_of, AggregationFamily, AggregationSegmentCollectors, AggregationView,
};
use crate::error::SearchError;
use crate::heap_item::{item_le, ranks_before, PartialHitHeapItem};
use crate::hit_heap::{is_ranked, PartialHitHeap};
use crate::leaf_response::LeafSearchResponse;
use crate::partial_hit::{hit_views, PartialHit, PartialHitView};
use crate::sort_key::SortingFieldComputer;
use crate::timestamp_filter::TimestampFilter;
use crate::top_k::{
    ascending_doc_ids, at_most, lemma_top_k_insert_bounded, lemma_top_k_keeps_the_best, top_k_fold,
    top_k_insert,
};
use vstd::multiset::Multiset;
use vstd::prelude::*;
use vstd::seq_lib::{lemma_sorted_unique, to_multiset_len};

verus! {

/// The order of the heap items as a relation.
pub open spec fn item_order() -> spec_fn(PartialHitHeapItem, PartialHitHeapItem) -> bool {
    |a: PartialHitHeapItem, b: PartialHitHeapItem| item_le(a, b)
}

/// The items of `hits` from the best hit to the worst.
pub open spec fn ranked(hits: Multiset<PartialHitHeapItem>) -> Seq<PartialHitHeapItem> {
    choose|items: Seq<PartialHitHeapItem>| is_ranked(items) && items.to_multiset() == hits
}

/// There is one way only to put a collection of items in rank order.
pub proof fn lemma_ranked_unique(items: Seq<PartialHitHeapItem>)
    requires
        is_ranked(items),
    ensures
        ranked(items.to_multiset()) == items,
{
    lemma_sorted_unique(ranked(items.to_multiset()), items, item_order());
}

/// The hit that a heap item of a segment stands for.
pub open spec fn hit_of(item: PartialHitHeapItem, segment_ord: u32, split_id: Seq<char>) -> PartialHitView {
    PartialHitView {
        sorting_field_value: item.sorting_field_value,
        doc_id: item.doc_id,
        segment_ord,
        split_id,
    }
}

/// What a segment collector stands for: its counters, its candidates, its
/// aggregation and the configuration it was made with.
pub struct SegmentCollectorView {
    pub num_hits: nat,
    pub hits: Multiset<PartialHitHeapItem>,
    pub capacity: nat,
    pub split_id: Seq<char>,
    pub segment_ord: u32,
    pub max_doc: u32,
    pub sort_by: SortingFieldComputer,
    pub timestamp_filter: Option<TimestampFilter>,
    pub aggregation: Option<AggregationView>,
}

/// The collector has what it needs for each document of its segment: the
/// column that it sorts by, the timestamp column and the aggregation cover
/// the documents below `max_doc`.
spec fn covers_segment(
    max_doc: u32,
    sort_by: SortingFieldComputer,
    timestamp_filter: Option<TimestampFilter>,
    aggregation: Option<AggregationSegmentCollectors>,
) -> bool {
    &&& sort_by.covers(max_doc)
    &&& timestamp_filter matches Some(filter) ==> max_doc <= filter.timestamps().len()
    &&& aggregation matches Some(aggregation) ==> aggregation.covers(max_doc)
}

impl SegmentCollectorView {
    /// Whether the document `doc_id` passes the time window, if there is one.
    pub open spec fn accepts(self, doc_id: u32) -> bool {
        match self.timestamp_filter {
            Some(filter) => filter.accepts(doc_id),
            None => true,
        }
    }

    /// The candidate that stands for the document `doc_id`.
    pub open spec fn candidate(self, doc_id: u32, score_bits: u32) -> PartialHitHeapItem {
        PartialHitHeapItem {
            sorting_field_value: self.sort_by.sort_key(doc_id, score_bits),
            doc_id,
        }
    }

    /// The family of the aggregation, if there is one.
    pub open spec fn aggregation_family(self) -> Option<AggregationFamily> {
        match self.aggregation {
            Some(aggregation) => Some(aggregation.family()),
            None => None,
        }
    }

    /// `after` is the aggregation of the collector once the document `doc_id`
    /// was offered to the collector: a document outside the time window
    /// leaves the aggregation as it was; any other is handed to it, with its
    /// score.
    pub open spec fn is_aggregation_after(
        self,
        doc_id: u32,
        score_bits: u32,
        after: Option<AggregationView>,
    ) -> bool {
        match self.aggregation {
            None => after is None,
            Some(aggregation) => after matches Some(then) && if self.accepts(doc_id) {
                aggregation.is_after_collect(doc_id, score_bits, then)
            } else {
                then == aggregation
            },
        }
    }

    /// The counter and the candidates of the collector after the document
    /// `doc_id` was offered to it, the aggregation left aside: a document
    /// outside the time window changes nothing; any other is counted and
    /// offered to the candidates.
    pub open spec fn collect(self, doc_id: u32, score_bits: u32) -> SegmentCollectorView {
        if self.accepts(doc_id) {
            SegmentCollectorView {
                num_hits: self.num_hits + 1,
                hits: top_k_insert(self.hits, self.capacity, self.candidate(doc_id, score_bits)),
                ..self
            }
        } else {
            self
        }
    }

    /// The collector after the documents of `docs`, each with its score,
    /// were offered to it in turn.
    pub open spec fn collect_all(self, docs: Seq<(u32, u32)>) -> SegmentCollectorView
        decreases docs.len(),
    {
        if docs.len() == 0 {
            self
        } else {
            self.collect_all(docs.drop_last()).collect(docs.last().0, docs.last().1)
        }
    }

    /// How many documents of `docs` pass the time window.
    pub open spec fn accepted_count(self, docs: Seq<(u32, u32)>) -> nat
        decreases docs.len(),
    {
        if docs.len() == 0 {
            0
        } else if self.accepts(docs.last().0) {
            self.accepted_count(docs.drop_last()) + 1
        } else {
            self.accepted_count(docs.drop_last())
        }
    }

    /// The candidates that stand for the documents of `docs` that pass the
    /// time window, in the order of `docs`.
    pub open spec fn accepted_candidates(self, docs: Seq<(u32, u32)>) -> Seq<PartialHitHeapItem>
        decreases docs.len(),
    {
        if docs.len() == 0 {
            Seq::empty()
        } else if self.accepts(docs.last().0) {
            self.accepted_candidates(docs.drop_last()).push(
                self.candidate(docs.last().0, docs.last().1),
            )
        } else {
            self.accepted_candidates(docs.drop_last())
        }
    }

    /// The candidates from the best hit on, as hits of the segment.
    pub open spec fn harvested_hits(self) -> Seq<PartialHitView> {
        ranked(self.hits).map_values(
            |item: PartialHitHeapItem| hit_of(item, self.segment_ord, self.split_id),
        )
    }

}

/// Offering documents changes the counter and the candidates of a collector
/// and nothing else.
pub proof fn lemma_collect_all_keeps_configuration(
    collector: SegmentCollectorView,
    docs: Seq<(u32, u32)>,
)
    ensures
        collector.collect_all(docs) == (SegmentCollectorView {
            num_hits: collector.collect_all(docs).num_hits,
            hits: collector.collect_all(docs).hits,
            ..collector
        }),
    decreases docs.len(),
{
    if docs.len() > 0 {
        lemma_collect_all_keeps_configuration(collector, docs.drop_last());
    }
}

/// After any number of documents the collector holds no more candidates than
/// its capacity.
pub proof fn lemma_capacity_is_kept(collector: SegmentCollectorView, docs: Seq<(u32, u32)>)
    requires
        collector.hits.len() <= collector.capacity,
    ensures
        collector.collect_all(docs).hits.len() <= collector.capacity,
    decreases docs.len(),
{
    if docs.len() > 0 {
        let earlier = collector.collect_all(docs.drop_last());
        lemma_capacity_is_kept(collector, docs.drop_last());
        lemma_collect_all_keeps_configuration(collector, docs.drop_last());
        lemma_top_k_insert_bounded(
            earlier.hits,
            earlier.capacity,
            earlier.candidate(docs.last().0, docs.last().1),
        );
    }
}

/// The counter of a collector grows by the number of documents that pass the
/// time window.
pub proof fn lemma_num_hits_counts_accepted(collector: SegmentCollectorView, docs: Seq<(u32, u32)>)
    ensures
        collector.collect_all(docs).num_hits == collector.num_hits + collector.accepted_count(docs),
    decreases docs.len(),
{
    if docs.len() > 0 {
        lemma_num_hits_counts_accepted(collector, docs.drop_last());
        lemma_collect_all_keeps_configuration(collector, docs.drop_last());
    }
}

/// A collector that starts without candidates holds what a bounded
/// collection holds after the candidates of the documents that pass the time
/// window were offered to it in turn.
pub proof fn lemma_hits_are_top_k_fold(collector: SegmentCollectorView, docs: Seq<(u32, u32)>)
    requires
        collector.hits == Multiset::<PartialHitHeapItem>::empty(),
    ensures
        collector.collect_all(docs).hits == top_k_fold(
            collector.accepted_candidates(docs),
            collector.capacity,
        ),
    decreases docs.len(),
{
    if docs.len() > 0 {
        lemma_hits_are_top_k_fold(collector, docs.drop_last());
        lemma_collect_all_keeps_configuration(collector, docs.drop_last());
        if collector.accepts(docs.last().0) {
            let candidates = collector.accepted_candidates(docs);
            assert(candidates.drop_last() =~= collector.accepted_candidates(docs.drop_last()));
        }
    }
}

/// The document ids of `docs` grow from each document to the next, as they
/// do when a segment is scanned.
pub open spec fn ascending_docs(docs: Seq<(u32, u32)>) -> bool {
    forall|i: int, j: int| 0 <= i < j < docs.len() ==> (#[trigger] docs[i]).0 < (#[trigger] docs[j]).0
}

proof fn lemma_accepted_candidates_ascend(collector: SegmentCollectorView, docs: Seq<(u32, u32)>)
    requires
        ascending_docs(docs),
    ensures
        ascending_doc_ids(collector.accepted_candidates(docs)),
        collector.accepted_candidates(docs).len() == collector.accepted_count(docs),
        forall|k: int|
            0 <= k < collector.accepted_candidates(docs).len() ==> exists|i: int|
                0 <= i < docs.len() && (#[trigger] docs[i]).0 == (
                #[trigger] collector.accepted_candidates(docs)[k]).doc_id,
    decreases docs.len(),
{
    if docs.len() > 0 {
        let earlier = docs.drop_last();
        lemma_accepted_candidates_ascend(collector, earlier);
    }
}

/// A segment scan keeps the best hits. A collector that starts without
/// candidates and is offered documents in the order of their ids holds, of
/// the documents that passed the time window, as many as its capacity
/// allows, and each candidate that it holds is a better hit than each that
/// it does not hold.
pub proof fn lemma_scan_keeps_the_best(collector: SegmentCollectorView, docs: Seq<(u32, u32)>)
    requires
        collector.hits == Multiset::<PartialHitHeapItem>::empty(),
        ascending_docs(docs),
    ensures
        collector.collect_all(docs).hits.subset_of(
            collector.accepted_candidates(docs).to_multiset(),
        ),
        collector.collect_all(docs).hits.len() == at_most(
            collector.capacity,
            collector.accepted_count(docs),
        ),
        forall|x: PartialHitHeapItem, y: PartialHitHeapItem|
            #![trigger collector.collect_all(docs).hits.count(x), collector.accepted_candidates(docs).to_multiset().count(y)]
            collector.collect_all(docs).hits.count(x) > 0 && collector.accepted_candidates(
                docs,
            ).to_multiset().count(y) > collector.collect_all(docs).hits.count(y) ==> ranks_before(
                x,
                y,
            ),
{
    lemma_hits_are_top_k_fold(collector, docs);
    lemma_accepted_candidates_ascend(collector, docs);
    lemma_top_k_keeps_the_best(collector.accepted_candidates(docs), collector.capacity);
}

/// Collects the hits of one segment: counts the documents that pass the time
/// window and keeps the best of them, up to a capacity.
pub struct QuickwitSegmentCollector {
    num_hits: u64,
    split_id: String,
    sort_by: SortingFieldComputer,
    hits: PartialHitHeap,
    max_hits: usize,
    segment_ord: u32,
    max_doc: u32,
    timestamp_filter_opt: Option<TimestampFilter>,
    aggregation: Option<AggregationSegmentCollectors>,
}

impl View for QuickwitSegmentCollector {
    type V = SegmentCollectorView;

    closed spec fn view(&self) -> SegmentCollectorView {
        SegmentCollectorView {
            num_hits: self.num_hits as nat,
            hits: self.hits@,
            capacity: self.max_hits as nat,
            split_id: self.split_id@,
            segment_ord: self.segment_ord,
            max_doc: self.max_doc,
            sort_by: self.sort_by,
            timestamp_filter: self.timestamp_filter_opt,
            aggregation: match self.aggregation {
                Some(aggregation) => Some(aggregation@),
                None => None,
            },
        }
    }
}

impl QuickwitSegmentCollector {
    /// The collector holds no more candidates than its capacity, and it has
    /// what it needs for each document of its segment.
    pub closed spec fn wf(&self) -> bool {
        &&& self.hits@.len() <= self.max_hits
        &&& covers_segment(self.max_doc, self.sort_by, self.timestamp_filter_opt, self.aggregation)
    }

    /// A collector without hits for a segment of `max_doc` documents, which
    /// keeps up to `max_hits` candidates.
    pub(crate) fn new(
        split_id: String,
        segment_ord: u32,
        max_doc: u32,
        sort_by: SortingFieldComputer,
        max_hits: usize,
        timestamp_filter_opt: Option<TimestampFilter>,
        aggregation: Option<AggregationSegmentCollectors>,
    ) -> (collector: QuickwitSegmentCollector)
        requires
            sort_by.covers(max_doc),
            timestamp_filter_opt matches Some(filter) ==> max_doc <= filter.timestamps().len(),
            aggregation matches Some(aggregation) ==> aggregation.covers(max_doc),
        ensures
            collector.wf(),
            collector@ == (SegmentCollectorView {
                num_hits: 0,
                hits: Multiset::empty(),
                capacity: max_hits as nat,
                split_id: split_id@,
                segment_ord,
                max_doc,
                sort_by,
                timestamp_filter: timestamp_filter_opt,
                aggregation: match aggregation {
                    Some(aggregation) => Some(aggregation@),
                    None => None,
                },
            }),
    {
        QuickwitSegmentCollector {
            num_hits: 0u64,
            split_id,
            sort_by,
            hits: PartialHitHeap::with_capacity(max_hits),
            max_hits,
            segment_ord,
            max_doc,
            timestamp_filter_opt,
            aggregation,
        }
    }

    /// The number of documents of the segment.
    pub fn max_doc(&self) -> (max_doc: u32)
        ensures
            max_doc == self@.max_doc,
    {
        self.max_doc
    }

    /// The number of documents counted so far.
    pub fn num_hits(&self) -> (num_hits: u64)
        ensures
            num_hits == self@.num_hits,
    {
        self.num_hits
    }

    fn at_capacity(&self) -> (full: bool)
        ensures
            full == (self@.hits.len() >= self@.capacity),
    {
        self.hits.len() >= self.max_hits
    }

    fn collect_top_k(&mut self, doc_id: u32, score_bits: u32)
        requires
            old(self).wf(),
            doc_id < old(self)@.max_doc,
        ensures
            final(self)@ == (SegmentCollectorView {
                hits: top_k_insert(
                    old(self)@.hits,
                    old(self)@.capacity,
                    old(self)@.candidate(doc_id, score_bits),
                ),
                ..old(self)@
            }),
            final(self).wf(),
    {
        let sorting_field_value: u64 = self.sort_by.compute_sorting_field(doc_id, score_bits);
        let item = PartialHitHeapItem { sorting_field_value, doc_id };
        if self.at_capacity() {
            if let Some(head) = self.hits.peek() {
                // In case of a tie, the document that came first stays.
                if head.sorting_field_value < sorting_field_value {
                    self.hits.replace_head(item);
                }
            }
        } else {
            self.hits.push(item);
        }
    }

    fn accept_document(&self, doc_id: u32) -> (accepted: bool)
        requires
            self.wf(),
            doc_id < self@.max_doc,
        ensures
            accepted == self@.accepts(doc_id),
    {
        if let Some(timestamp_filter) = &self.timestamp_filter_opt {
            return timestamp_filter.is_within_range(doc_id);
        }
        true
    }

    /// Offers the document `doc_id`, whose score has the bit pattern
    /// `score_bits`, to the collector: a document outside the time window is
    /// passed over; any other is counted, offered to the candidates and
    /// taken into the aggregation. Returns whether the document was counted,
    /// so that a trace-id finder beside the collector takes the same
    /// documents.
    pub fn collect(&mut self, doc_id: u32, score_bits: u32) -> (accepted: bool)
        requires
            old(self).wf(),
            doc_id < old(self)@.max_doc,
            old(self)@.num_hits < u64::MAX,
        ensures
            accepted == old(self)@.accepts(doc_id),
            final(self)@ == (SegmentCollectorView {
                aggregation: final(self)@.aggregation,
                ..old(self)@.collect(doc_id, score_bits)
            }),
            old(self)@.is_aggregation_after(doc_id, score_bits, final(self)@.aggregation),
            final(self).wf(),
            final(self)@.hits.len() <= final(self)@.capacity,
            final(self)@.hits.len() == if accepted {
                at_most(old(self)@.capacity, old(self)@.hits.len() + 1)
            } else {
                old(self)@.hits.len()
            },
    {
        proof {
            lemma_top_k_insert_bounded(
                self@.hits,
                self@.capacity,
                self@.candidate(doc_id, score_bits),
            );
        }
        if !self.accept_document(doc_id) {
            return false;
        }
        self.num_hits += 1;
        self.collect_top_k(doc_id, score_bits);
        match &mut self.aggregation {
            Some(aggregation) => aggregation.collect(doc_id, score_bits),
            None => (),
        }
        true
    }

    /// Ends the collection: the candidates from the best hit on, the number
    /// of documents counted, and the state of the aggregation in serialized
    /// form. `find_trace_ids_fruit` is the serialized fruit of the trace-id
    /// finder that ran beside the collector; a collector with a finder must
    /// be given one. The aggregations of the index engine may end in an
    /// error, which is then the result. The response has an aggregation state
    /// exactly where the collector has an aggregation.
    pub fn harvest(self, find_trace_ids_fruit: Option<Vec<u8>>) -> (harvested: Result<
        LeafSearchResponse,
        SearchError,
    >)
        requires
            self.wf(),
            self@.aggregation_family() == Some(AggregationFamily::FindTraceIds)
                ==> find_trace_ids_fruit is Some,
        ensures
            self@.aggregation_family() != Some(AggregationFamily::Tantivy) ==> harvested is Ok,
            match self@.aggregation {
                None => harvested matches Ok(response) && response.intermediate_aggregation_result
                    is None,
                Some(aggregation) => is_harvest_of(
                    aggregation,
                    find_trace_ids_fruit,
                    match harvested {
                        Ok(response) => Ok(response.intermediate_aggregation_result),
                        Err(error) => Err(error),
                    },
                ) && (harvested matches Ok(response) ==> response.intermediate_aggregation_result
                    is Some),
            },
            is_ranked(ranked(self@.hits)),
            ranked(self@.hits).to_multiset() == self@.hits,
            harvested matches Ok(response) ==> {
                &&& response.num_hits == self@.num_hits
                &&& hit_views(response.partial_hits@) == self@.harvested_hits()
                &&& response.partial_hits@.len() == self@.hits.len() <= self@.capacity
                &&& response.failed_splits@.len() == 0
                &&& response.num_attempted_splits == 1
            },
    {
        let segment_ord = self.segment_ord;
        let split_id = self.split_id;
        let sorted = self.hits.into_sorted_vec();
        proof {
            lemma_ranked_unique(sorted@);
            to_multiset_len(sorted@);
        }
        let mut partial_hits: Vec<PartialHit> = Vec::with_capacity(sorted.len());
        let mut i: usize = 0;
        while i < sorted.len()
            invariant
                i <= sorted.len(),
                hit_views(partial_hits@) == sorted@.take(i as int).map_values(
                    |item: PartialHitHeapItem| hit_of(item, segment_ord, split_id@),
                ),
            decreases sorted.len() - i,
        {
            let hit = sorted[i];
            let partial_hit = PartialHit {
                sorting_field_value: hit.sorting_field_value,
                segment_ord,
                doc_id: hit.doc_id,
                split_id: split_id.clone(),
            };
            partial_hits.push(partial_hit);
            proof {
                let to_hit = |item: PartialHitHeapItem| hit_of(item, segment_ord, split_id@);
                assert(sorted@.take(i + 1) =~= sorted@.take(i as int).push(hit));
                assert(sorted@.take(i as int).push(hit).map_values(to_hit) =~= sorted@.take(
                    i as int,
                ).map_values(to_hit).push(to_hit(hit)));
            }
            i += 1;
        }
        let intermediate_aggregation_result = match self.aggregation {
            Some(aggregation) => match aggregation.harvest(find_trace_ids_fruit) {
                Ok(state) => state,
                Err(error) => {
                    return Err(error);
                },
            },
            None => None,
        };
        Ok(
            LeafSearchResponse {
                intermediate_aggregation_result,
                num_hits: self.num_hits,
                partial_hits,
                failed_splits: Vec::new(),
                num_attempted_splits: 1,
            },
        )
    }
}

} // verus!
