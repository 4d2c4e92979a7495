use crate::aggregation::{
    aggregation_collected, aggregation_has_failed, aggregation_limit_values, aggregation_num_docs,
    is_json_refusal, new_aggregation_limits, parse_aggregations, parsed_aggregations,
    AggregationFamily, AggregationSegmentCollectors, AggregationView, FindTraceIdsCollector,
    QuickwitAggregations,
};
use crate::column::{column_num_docs, column_values};
use crate::error::SearchError;
use crate::field_names::{distinct_names, insert_name, insert_names, name_set};
use crate::leaf_response::{present_intermediates, LeafSearchResponse};
use crate::merge::{
    can_sum, is_aggregation_merge, merge_leaf_responses, past_offset, states_fit,
};
use crate::partial_hit::hit_views;
use crate::segment_collector::QuickwitSegmentCollector;
use crate::sort_key::{resolve_sort_by, SortBy, SortOrder, SortingFieldComputer};
use crate::timestamp_filter::{
    create_timestamp_filter_builder, TimestampFilter, TimestampFilterBuilder,
};
use tantivy::aggregation::{AggregationLimits, AggregationSegmentCollector};
use tantivy::fastfield::Column;
use vstd::multiset::Multiset;
use vstd::prelude::*;

verus! {

/// What a collector reads of a search request.
#[derive(Clone, Debug)]
pub struct SearchRequest {
    /// The number of leading hits to skip.
    pub start_offset: u32,
    /// The number of hits to return.
    pub max_hits: u32,
    /// The wire tag of the sort order, if the request names one.
    pub sort_order: Option<i32>,
    /// The field to sort by; `_score` stands for the relevance score.
    pub sort_by_field: Option<String>,
    /// The start of the time window, in seconds.
    pub start_timestamp: Option<i64>,
    /// The end of the time window, in seconds.
    pub end_timestamp: Option<i64>,
    /// The aggregation to run, as JSON.
    pub aggregation_request: Option<String>,
}

/// What a searcher is configured with, as far as aggregations go.
#[derive(Clone, Debug)]
pub struct SearcherContext {
    /// The memory that the aggregations of a request may use, in bytes.
    pub aggregation_memory_limit: u64,
    /// The number of buckets that an aggregation may return.
    pub aggregation_bucket_limit: u32,
}

/// What has to be loaded before a collection starts.
#[derive(Clone, Debug)]
pub struct WarmupInfo {
    pub term_dict_field_names: Vec<String>,
    pub posting_field_names: Vec<String>,
    pub fast_field_names: Vec<String>,
    pub field_norms: bool,
}

/// Defines what is accumulated about the documents that match a query: how
/// they are ranked, how many are kept and skipped, which time window they
/// must fall in, and what is aggregated over them.
#[derive(Clone)]
pub struct QuickwitCollector {
    pub split_id: String,
    pub start_offset: usize,
    pub max_hits: usize,
    pub sort_by: SortBy,
    pub timestamp_filter_builder_opt: Option<TimestampFilterBuilder>,
    pub aggregation: Option<QuickwitAggregations>,
    pub aggregation_limits: AggregationLimits,
}

/// The name that stands for the relevance score in a sort directive.
pub open spec fn score_field() -> Seq<char> {
    "_score"@
}

/// The sort order of a request: the one its tag names; descending where it has
/// no tag or one that names no order.
pub open spec fn requested_sort_order(sort_order: Option<i32>) -> SortOrder {
    match sort_order {
        Some(tag) => match SortOrder::spec_from_i32(tag) {
            Some(order) => order,
            None => SortOrder::Desc,
        },
        None => SortOrder::Desc,
    }
}

/// `sort_by` is the sort criterion of a request with the sort field
/// `sort_by_field` and the order `order`: by document id without a field, by
/// score for the score's name, by that fast field otherwise.
pub open spec fn is_requested_sort_by(
    sort_by: SortBy,
    sort_by_field: Option<String>,
    order: SortOrder,
) -> bool {
    match sort_by_field {
        None => sort_by is DocId,
        Some(field_name) => if field_name@ == score_field() {
            sort_by == (SortBy::Score { order })
        } else {
            sort_by matches SortBy::FastField { field_name: sorted_field, order: sorted_order }
                && sorted_field@ == field_name@ && sorted_order == order
        },
    }
}

/// The limits on aggregations that a searcher is configured with: its
/// memory limit and its bucket limit.
pub fn aggregation_limits_from_searcher_context(searcher_context: &SearcherContext) -> (limits:
    AggregationLimits)
    ensures
        aggregation_limit_values(limits) == (
            searcher_context.aggregation_memory_limit,
            searcher_context.aggregation_bucket_limit,
        ),
{
    new_aggregation_limits(
        searcher_context.aggregation_memory_limit,
        searcher_context.aggregation_bucket_limit,
    )
}

/// `resolved` is what the JSON text `json` asks for, where `find_trace_ids`
/// is the text read as a trace-id finder: that finder where the text has its
/// shape; else the aggregations of the index engine that the parser reads
/// from the text; else an invalid argument with the parser's message.
pub open spec fn is_resolved_aggregation(
    resolved: Result<QuickwitAggregations, SearchError>,
    json: Seq<char>,
    find_trace_ids: Option<FindTraceIdsCollector>,
) -> bool {
    match find_trace_ids {
        Some(finder) => resolved == Ok::<QuickwitAggregations, SearchError>(
            QuickwitAggregations::FindTraceIdsAggregation(finder),
        ),
        None => match parsed_aggregations(json) {
            Some(read) => resolved matches Ok(QuickwitAggregations::TantivyAggregations(aggregations))
                && aggregations@ == read,
            None => resolved matches Err(error) && is_json_refusal(error),
        },
    }
}

/// `outcome` is the aggregation of a request whose aggregation text is
/// `aggregation_request`: none without a text, else what the text asks for.
pub open spec fn is_requested_aggregation(
    outcome: Result<Option<QuickwitAggregations>, SearchError>,
    aggregation_request: Option<String>,
    find_trace_ids: Option<FindTraceIdsCollector>,
) -> bool {
    match aggregation_request {
        None => outcome == Ok::<Option<QuickwitAggregations>, SearchError>(None),
        Some(json) => match outcome {
            Ok(Some(aggregation)) => is_resolved_aggregation(
                Ok(aggregation),
                json@,
                find_trace_ids,
            ),
            Ok(None) => false,
            Err(error) => is_resolved_aggregation(Err(error), json@, find_trace_ids),
        },
    }
}

/// The aggregation that the JSON text `json` asks for. `find_trace_ids` is
/// the text read as a trace-id finder, where it has that shape; any other
/// text is read as aggregations of the index engine, and is an invalid
/// argument if it cannot be.
pub fn resolve_aggregation(json: &str, find_trace_ids: Option<FindTraceIdsCollector>) -> (resolved:
    Result<QuickwitAggregations, SearchError>)
    ensures
        is_resolved_aggregation(resolved, json@, find_trace_ids),
{
    match find_trace_ids {
        Some(finder) => Ok(QuickwitAggregations::FindTraceIdsAggregation(finder)),
        None => match parse_aggregations(json) {
            Ok(aggregations) => Ok(QuickwitAggregations::TantivyAggregations(aggregations)),
            Err(error) => Err(error),
        },
    }
}

/// The sort criterion that a request asks for.
pub fn requested_sort_by(search_request: &SearchRequest) -> (sort_by: SortBy)
    ensures
        is_requested_sort_by(
            sort_by,
            search_request.sort_by_field,
            requested_sort_order(search_request.sort_order),
        ),
{
    let sort_order = match search_request.sort_order {
        Some(tag) => match SortOrder::from_i32(tag) {
            Some(order) => order,
            None => SortOrder::Desc,
        },
        None => SortOrder::Desc,
    };
    match &search_request.sort_by_field {
        Some(field_name) => {
            if *field_name == "_score".to_owned() {
                SortBy::Score { order: sort_order }
            } else {
                SortBy::FastField { field_name: field_name.clone(), order: sort_order }
            }
        },
        None => SortBy::DocId,
    }
}

/// Builds the collector of a split from the request and the aggregation that
/// the request asks for.
pub fn make_collector(
    split_id: String,
    timestamp_field_name: Option<&str>,
    search_request: &SearchRequest,
    aggregation: Option<QuickwitAggregations>,
    aggregation_limits: AggregationLimits,
) -> (collector: QuickwitCollector)
    ensures
        collector.split_id == split_id,
        collector.start_offset == search_request.start_offset,
        collector.max_hits == search_request.max_hits,
        is_requested_sort_by(
            collector.sort_by,
            search_request.sort_by_field,
            requested_sort_order(search_request.sort_order),
        ),
        collector.timestamp_filter_builder_opt is None <==> (timestamp_field_name is None || (
        search_request.start_timestamp is None && search_request.end_timestamp is None)),
        collector.timestamp_filter_builder_opt matches Some(builder) ==> timestamp_field_name matches Some(
            field_name,
        ) && builder.timestamp_field_name@ == field_name@ && builder.start_timestamp
            == search_request.start_timestamp && builder.end_timestamp
            == search_request.end_timestamp,
        collector.aggregation == aggregation,
        collector.aggregation_limits == aggregation_limits,
{
    let timestamp_filter_builder_opt = create_timestamp_filter_builder(
        timestamp_field_name,
        search_request.start_timestamp,
        search_request.end_timestamp,
    );
    let sort_by = requested_sort_by(search_request);
    QuickwitCollector {
        split_id,
        start_offset: search_request.start_offset as usize,
        max_hits: search_request.max_hits as usize,
        sort_by,
        timestamp_filter_builder_opt,
        aggregation,
        aggregation_limits,
    }
}

/// Builds the collector of a split, in function of what the request asks
/// for. `timestamp_field_name` is the timestamp field of the index, if it has
/// one; `find_trace_ids` is the request's aggregation read as a trace-id
/// finder, where it has that shape.
pub fn make_collector_for_split(
    split_id: String,
    timestamp_field_name: Option<&str>,
    search_request: &SearchRequest,
    find_trace_ids: Option<FindTraceIdsCollector>,
    aggregation_limits: AggregationLimits,
) -> (made: Result<QuickwitCollector, SearchError>)
    ensures
        is_requested_aggregation(
            match made {
                Ok(collector) => Ok(collector.aggregation),
                Err(error) => Err(error),
            },
            search_request.aggregation_request,
            find_trace_ids,
        ),
        made matches Ok(collector) ==> {
            &&& collector.split_id == split_id
            &&& collector.start_offset == search_request.start_offset
            &&& collector.max_hits == search_request.max_hits
            &&& is_requested_sort_by(
                collector.sort_by,
                search_request.sort_by_field,
                requested_sort_order(search_request.sort_order),
            )
            &&& collector.timestamp_filter_builder_opt is None <==> (timestamp_field_name is None
                || (search_request.start_timestamp is None && search_request.end_timestamp
                is None))
            &&& collector.timestamp_filter_builder_opt matches Some(builder)
                ==> timestamp_field_name matches Some(field_name) && builder.timestamp_field_name@
                == field_name@ && builder.start_timestamp == search_request.start_timestamp
                && builder.end_timestamp == search_request.end_timestamp
            &&& collector.aggregation_limits == aggregation_limits
        },
{
    let aggregation = match &search_request.aggregation_request {
        Some(json) => match resolve_aggregation(json.as_str(), find_trace_ids) {
            Ok(aggregation) => Some(aggregation),
            Err(error) => {
                return Err(error);
            },
        },
        None => None,
    };
    Ok(
        make_collector(
            split_id,
            timestamp_field_name,
            search_request,
            aggregation,
            aggregation_limits,
        ),
    )
}

/// Builds a collector that is only good for merging fruits: of the request
/// it keeps the offset, the number of hits and the aggregation; it ranks by
/// document id, names no split and has no time window.
pub fn make_merge_collector(
    search_request: &SearchRequest,
    find_trace_ids: Option<FindTraceIdsCollector>,
    searcher_context: &SearcherContext,
) -> (made: Result<QuickwitCollector, SearchError>)
    ensures
        is_requested_aggregation(
            match made {
                Ok(collector) => Ok(collector.aggregation),
                Err(error) => Err(error),
            },
            search_request.aggregation_request,
            find_trace_ids,
        ),
        made matches Ok(collector) ==> {
            &&& collector.split_id@ == Seq::<char>::empty()
            &&& collector.start_offset == search_request.start_offset
            &&& collector.max_hits == search_request.max_hits
            &&& collector.sort_by is DocId
            &&& collector.timestamp_filter_builder_opt is None
            &&& aggregation_limit_values(collector.aggregation_limits) == (
                searcher_context.aggregation_memory_limit,
                searcher_context.aggregation_bucket_limit,
            )
        },
{
    let aggregation = match &search_request.aggregation_request {
        Some(json) => match resolve_aggregation(json.as_str(), find_trace_ids) {
            Ok(aggregation) => Some(aggregation),
            Err(error) => {
                return Err(error);
            },
        },
        None => None,
    };
    Ok(
        QuickwitCollector {
            split_id: String::new(),
            start_offset: search_request.start_offset as usize,
            max_hits: search_request.max_hits as usize,
            sort_by: SortBy::DocId,
            timestamp_filter_builder_opt: None,
            aggregation,
            aggregation_limits: aggregation_limits_from_searcher_context(searcher_context),
        },
    )
}

/// The fruits that are results, in their order.
pub open spec fn successes(fruits: Seq<Result<LeafSearchResponse, SearchError>>) -> Seq<
    LeafSearchResponse,
>
    decreases fruits.len(),
{
    if fruits.len() == 0 {
        Seq::empty()
    } else {
        match fruits.last() {
            Ok(response) => successes(fruits.drop_last()).push(response),
            Err(_) => successes(fruits.drop_last()),
        }
    }
}

/// The first fruit that is an error, if there is one.
pub open spec fn first_error(fruits: Seq<Result<LeafSearchResponse, SearchError>>) -> Option<
    SearchError,
>
    decreases fruits.len(),
{
    if fruits.len() == 0 {
        None
    } else {
        match first_error(fruits.drop_last()) {
            Some(error) => Some(error),
            None => match fruits.last() {
                Ok(_) => None,
                Err(error) => Some(error),
            },
        }
    }
}

impl QuickwitCollector {
    /// The fast fields that a collection reads: the field that hits are
    /// sorted by, those of the aggregation, and the timestamp field.
    pub open spec fn spec_fast_field_names(&self) -> Set<Seq<char>> {
        let of_sort: Set<Seq<char>> = match self.sort_by {
            SortBy::FastField { field_name, .. } => set![field_name@],
            _ => Set::empty(),
        };
        let of_aggregation: Set<Seq<char>> = match self.aggregation {
            Some(aggregation) => aggregation.spec_fast_field_names(),
            None => Set::empty(),
        };
        let of_filter: Set<Seq<char>> = match self.timestamp_filter_builder_opt {
            Some(builder) => set![builder.timestamp_field_name@],
            None => Set::empty(),
        };
        of_sort.union(of_aggregation).union(of_filter)
    }

    /// The names of the fast fields that a collection reads, each once.
    pub fn fast_field_names(&self) -> (names: Vec<String>)
        ensures
            distinct_names(names@),
            name_set(names@) == self.spec_fast_field_names(),
    {
        let mut fast_field_names: Vec<String> = Vec::new();
        match &self.sort_by {
            SortBy::DocId | SortBy::Score { .. } => {},
            SortBy::FastField { field_name, .. } => {
                insert_name(&mut fast_field_names, field_name.clone());
            },
        }
        if let Some(aggregations) = &self.aggregation {
            let of_aggregation = aggregations.fast_field_names();
            insert_names(&mut fast_field_names, &of_aggregation);
        }
        if let Some(timestamp_filter_builder) = &self.timestamp_filter_builder_opt {
            insert_name(&mut fast_field_names, timestamp_filter_builder.timestamp_field_name.clone());
        }
        fast_field_names
    }

    /// Whether hits are ranked by score, so that scores have to be computed.
    pub fn requires_scoring(&self) -> (scoring: bool)
        ensures
            scoring == (self.sort_by is Score),
    {
        match self.sort_by {
            SortBy::DocId | SortBy::FastField { .. } => false,
            SortBy::Score { .. } => true,
        }
    }

    /// What has to be loaded before a collection starts: the fast fields that
    /// it reads, and the field norms where hits are ranked by score.
    pub fn warmup_info(&self) -> (info: WarmupInfo)
        ensures
            info.term_dict_field_names@.len() == 0,
            info.posting_field_names@.len() == 0,
            distinct_names(info.fast_field_names@),
            name_set(info.fast_field_names@) == self.spec_fast_field_names(),
            info.field_norms == (self.sort_by is Score),
    {
        WarmupInfo {
            term_dict_field_names: Vec::new(),
            posting_field_names: Vec::new(),
            fast_field_names: self.fast_field_names(),
            field_norms: self.requires_scoring(),
        }
    }

    /// The number of hits that every segment and every merge keeps: the
    /// hits to return and those to skip before them.
    pub open spec fn leaf_max_hits(&self) -> nat {
        (self.max_hits + self.start_offset) as nat
    }

    /// The time window is the one that this collector asks for: there is a
    /// filter only where the collector describes a window.
    pub open spec fn filter_for_segment(
        &self,
        timestamp_filter_opt: Option<TimestampFilter>,
    ) -> Option<TimestampFilter> {
        match self.timestamp_filter_builder_opt {
            Some(_) => timestamp_filter_opt,
            None => None,
        }
    }

    /// The sort criterion of this collector in a segment of `max_doc`
    /// documents whose column of the sort field is `sort_column`.
    pub open spec fn is_sort_for_segment(
        &self,
        computer: SortingFieldComputer,
        sort_column: Option<Column<u64>>,
        max_doc: u32,
    ) -> bool {
        match self.sort_by {
            SortBy::DocId => computer is DocId,
            SortBy::Score { order } => computer == (SortingFieldComputer::Score { order }),
            SortBy::FastField { field_name, order } => match sort_column {
                Some(column) => computer == (SortingFieldComputer::FastField {
                    sort_column: column,
                    order,
                }),
                None => computer matches SortingFieldComputer::FastField {
                    sort_column: empty,
                    order: resolved_order,
                } && resolved_order == order && column_values(empty) == Seq::new(
                    max_doc as nat,
                    |doc_id: int| None::<u64>,
                ),
            },
        }
    }

    /// The columns handed in for a segment of `max_doc` documents cover the
    /// segment: the sort column where hits are sorted by a fast field, the
    /// timestamp column where there is a time window.
    pub open spec fn columns_cover(
        &self,
        max_doc: u32,
        sort_column: Option<Column<u64>>,
        timestamp_filter_opt: Option<TimestampFilter>,
    ) -> bool {
        &&& self.sort_by is FastField ==> (sort_column matches Some(sorted) ==> max_doc
            <= column_values(sorted).len())
        &&& self.filter_for_segment(timestamp_filter_opt) matches Some(filter) ==> max_doc
            <= filter.timestamps().len()
    }

    /// The family of the aggregation, if there is one.
    pub open spec fn aggregation_family(&self) -> Option<AggregationFamily> {
        match self.aggregation {
            Some(aggregation) => Some(aggregation.family()),
            None => None,
        }
    }

    /// The aggregation of this collector at work on a segment, where
    /// `aggregation_collector` are the index engine's aggregations set up on
    /// the segment.
    pub open spec fn aggregation_for_segment(
        &self,
        aggregation_collector: Option<AggregationSegmentCollector>,
    ) -> Option<AggregationView> {
        match self.aggregation {
            None => None,
            Some(QuickwitAggregations::FindTraceIdsAggregation(_)) => Some(
                AggregationView::FindTraceIds,
            ),
            Some(QuickwitAggregations::TantivyAggregations(_)) => match aggregation_collector {
                Some(collector) => Some(
                    AggregationView::Tantivy {
                        collected: aggregation_collected(collector),
                        failed: aggregation_has_failed(collector),
                    },
                ),
                None => None,
            },
        }
    }

    /// Starts the collection of one segment. What is read from the segment
    /// is handed in: `max_doc` is the number of its documents, `sort_column`
    /// its column of the field that hits are sorted by, where it has one,
    /// `timestamp_filter_opt` the time window built on its timestamp column,
    /// and `aggregation_collector` the index engine's aggregations set up on
    /// this segment. A column that does not cover the segment is refused, and so is a
    /// segment without the aggregations that this collector asks the index
    /// engine for.
    pub fn for_segment(
        &self,
        segment_ord: u32,
        max_doc: u32,
        sort_column: Option<Column<u64>>,
        timestamp_filter_opt: Option<TimestampFilter>,
        aggregation_collector: Option<AggregationSegmentCollector>,
    ) -> (started: Result<QuickwitSegmentCollector, SearchError>)
        requires
            self.max_hits + self.start_offset <= usize::MAX,
            aggregation_collector matches Some(collector) ==> max_doc <= aggregation_num_docs(
                collector,
            ),
        ensures
            started is Ok <==> self.columns_cover(max_doc, sort_column, timestamp_filter_opt) && (
            self.aggregation_family() == Some(AggregationFamily::Tantivy)
                ==> aggregation_collector is Some),
            started matches Err(error) ==> error is SegmentIo,
            started matches Ok(collector) ==> {
                &&& collector.wf()
                &&& collector@.num_hits == 0
                &&& collector@.hits == Multiset::<crate::heap_item::PartialHitHeapItem>::empty()
                &&& collector@.capacity == self.leaf_max_hits()
                &&& collector@.split_id == self.split_id@
                &&& collector@.segment_ord == segment_ord
                &&& collector@.max_doc == max_doc
                &&& self.is_sort_for_segment(collector@.sort_by, sort_column, max_doc)
                &&& collector@.timestamp_filter == self.filter_for_segment(timestamp_filter_opt)
                &&& collector@.aggregation == self.aggregation_for_segment(aggregation_collector)
            },
    {
        let sort_by = resolve_sort_by(&self.sort_by, sort_column, max_doc);
        if let SortingFieldComputer::FastField { sort_column: resolved, .. } = &sort_by {
            if column_num_docs(resolved) < max_doc {
                return Err(
                    SearchError::SegmentIo("the sort column does not cover the segment".to_owned()),
                );
            }
        }
        // Whatever the offset, every leaf collects its best hits from the
        // first on.
        let leaf_max_hits = self.max_hits + self.start_offset;
        let timestamp_filter_opt = match &self.timestamp_filter_builder_opt {
            Some(_) => timestamp_filter_opt,
            None => None,
        };
        if let Some(filter) = &timestamp_filter_opt {
            if filter.num_docs() < max_doc {
                return Err(
                    SearchError::SegmentIo(
                        "the timestamp column does not cover the segment".to_owned(),
                    ),
                );
            }
        }
        let aggregation = match &self.aggregation {
            Some(QuickwitAggregations::FindTraceIdsAggregation(_)) => Some(
                AggregationSegmentCollectors::FindTraceIdsSegmentCollector,
            ),
            Some(QuickwitAggregations::TantivyAggregations(_)) => match aggregation_collector {
                Some(collector) => Some(
                    AggregationSegmentCollectors::TantivyAggregationSegmentCollector(collector),
                ),
                None => {
                    return Err(
                        SearchError::SegmentIo(
                            "the aggregations are not set up on the segment".to_owned(),
                        ),
                    );
                },
            },
            None => None,
        };
        Ok(
            QuickwitSegmentCollector::new(
                self.split_id.clone(),
                segment_ord,
                max_doc,
                sort_by,
                leaf_max_hits,
                timestamp_filter_opt,
                aggregation,
            ),
        )
    }

    /// Merges the fruits of the segments of a split, or of several splits.
    /// The first error among the fruits is the result. A single fruit comes
    /// back as it is. Any other number of fruits is merged, the best
    /// `start_offset + max_hits` hits are kept, and of these the first
    /// `start_offset` are dropped. The fruits must be fruits of this
    /// collector's aggregation.
    pub fn merge_fruits<F: Fn(Vec<Vec<u8>>) -> Result<Vec<u8>, String>>(
        &self,
        segment_fruits: Vec<Result<LeafSearchResponse, SearchError>>,
        merge_trace_ids: F,
    ) -> (merged: Result<LeafSearchResponse, SearchError>)
        requires
            forall|fruits: Vec<Vec<u8>>| call_requires(merge_trace_ids, (fruits,)),
            self.max_hits + self.start_offset <= usize::MAX,
            first_error(segment_fruits@) is None && segment_fruits@.len() != 1 ==> can_sum(
                successes(segment_fruits@),
            ),
            first_error(segment_fruits@) is None && segment_fruits@.len() != 1 ==> states_fit(
                self.aggregation,
                successes(segment_fruits@),
            ),
        ensures
            first_error(segment_fruits@) matches Some(error) ==> merged == Err::<
                LeafSearchResponse,
                SearchError,
            >(error),
            first_error(segment_fruits@) is None && segment_fruits@.len() == 1 ==> merged
                == segment_fruits@[0],
            first_error(segment_fruits@) is None && segment_fruits@.len() != 1 ==> {
                &&& is_aggregation_merge(
                    self.aggregation,
                    present_intermediates(successes(segment_fruits@)),
                    merge_trace_ids,
                    match merged {
                        Ok(response) => Ok(response.intermediate_aggregation_result),
                        Err(error) => Err(error),
                    },
                )
                &&& merged matches Ok(response) ==> self.is_merged_fruit(
                    response,
                    successes(segment_fruits@),
                )
            },
    {
        let ghost given = segment_fruits@;
        let mut leaf_responses: Vec<LeafSearchResponse> = Vec::new();
        for fruit in iter: segment_fruits
            invariant
                given == segment_fruits@,
                first_error(given.take(iter.index() as int)) is None,
                leaf_responses@ == successes(given.take(iter.index() as int)),
                leaf_responses@.len() == iter.index(),
        {
            proof {
                let next = iter.index() + 1;
                assert(given.take(next).drop_last() =~= given.take(iter.index() as int));
                lemma_first_error_of_prefix(given, next);
            }
            match fruit {
                Ok(leaf_response) => {
                    leaf_responses.push(leaf_response);
                },
                Err(error) => {
                    return Err(error);
                },
            }
        }
        assert(given.take(given.len() as int) =~= given);
        // Every leaf returns its best hits from the first on; of the merged
        // hits those past the offset are asked for.
        let num_hits = self.start_offset + self.max_hits;
        let single = leaf_responses.len() == 1;
        let mut merged_leaf_response = match merge_leaf_responses(
            &self.aggregation,
            leaf_responses,
            num_hits,
            merge_trace_ids,
        ) {
            Ok(response) => response,
            Err(error) => {
                return Err(error);
            },
        };
        if single {
            return Ok(merged_leaf_response);
        }
        let ghost top = merged_leaf_response.partial_hits@;
        if self.start_offset <= merged_leaf_response.partial_hits.len() {
            let kept = merged_leaf_response.partial_hits.split_off(self.start_offset);
            merged_leaf_response.partial_hits = kept;
            assert(hit_views(top.skip(self.start_offset as int)) =~= hit_views(top).skip(
                self.start_offset as int,
            ));
        } else {
            merged_leaf_response.partial_hits = Vec::new();
            assert(hit_views(merged_leaf_response.partial_hits@) =~= Seq::empty());
        }
        Ok(merged_leaf_response)
    }

    /// `merged` is what this collector makes of the results `leaf_responses`:
    /// their counters summed, their failed splits concatenated, and of their
    /// `start_offset + max_hits` best hits those past the first
    /// `start_offset`.
    pub open spec fn is_merged_fruit(
        &self,
        merged: LeafSearchResponse,
        leaf_responses: Seq<LeafSearchResponse>,
    ) -> bool {
        &&& merged.num_hits == crate::leaf_response::total_num_hits(leaf_responses)
        &&& merged.num_attempted_splits == crate::leaf_response::total_attempted_splits(
            leaf_responses,
        )
        &&& merged.failed_splits@ == crate::leaf_response::all_failed_splits(leaf_responses)
        &&& hit_views(merged.partial_hits@) == past_offset(
            crate::merge::top_k_hits(
                crate::leaf_response::all_partial_hits(leaf_responses),
                self.leaf_max_hits(),
            ),
            self.start_offset as nat,
        )
    }
}

proof fn lemma_first_error_of_prefix(
    fruits: Seq<Result<LeafSearchResponse, SearchError>>,
    count: int,
)
    requires
        0 < count <= fruits.len(),
        first_error(fruits.take(count - 1)) is None,
    ensures
        fruits[count - 1] is Err ==> first_error(fruits) == Some(fruits[count - 1]->Err_0),
        fruits[count - 1] is Ok ==> first_error(fruits.take(count)) is None,
    decreases fruits.len() - count,
{
    assert(fruits.take(count).drop_last() =~= fruits.take(count - 1));
    if count == fruits.len() {
    } else if fruits[count - 1] is Err {
        assert(fruits.drop_last().take(count - 1) =~= fruits.take(count - 1));
        lemma_first_error_of_prefix(fruits.drop_last(), count);
    }
}

} // verus!
