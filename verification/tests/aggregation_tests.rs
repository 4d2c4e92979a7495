use leaf_collector::aggregation::{
    deserialize_intermediate, intermediate_aggregation_results, internal_error_from_postcard,
    invalid_argument_from_json, merge_tantivy_intermediates, parse_aggregations,
    search_error_from_tantivy, serialize_intermediate, AggregationSegmentCollectors,
    FindTraceIdsCollector, QuickwitAggregations,
};
use leaf_collector::collector::{
    aggregation_limits_from_searcher_context, QuickwitCollector, SearcherContext,
};
use leaf_collector::error::{LimitExceeded, SearchError};
use leaf_collector::leaf_response::LeafSearchResponse;
use leaf_collector::sort_key::{SortBy, SortOrder};
use leaf_collector::timestamp_filter::{TimestampFilter, TimestampFilterBuilder};
use tantivy::aggregation::agg_req::Aggregations;
use tantivy::aggregation::intermediate_agg_result::IntermediateAggregationResults;
use tantivy::aggregation::{AggregationError, AggregationLimits, AggregationSegmentCollector};
use tantivy::collector::SegmentCollector;
use tantivy::merge_policy::NoMergePolicy;
use tantivy::schema::{Schema, FAST};
use tantivy::{Document, Index, Searcher, TantivyError};

const SUM_AND_COUNT: &str = r#"{
    "total": { "sum": { "field": "value" } },
    "count": { "value_count": { "field": "value" } }
}"#;

const TERMS: &str = r#"{
    "by_value": { "terms": { "field": "value" } }
}"#;

/// One fruit per batch: each batch is a segment of an index over the fast
/// field `value`.
fn segment_fruits(aggregations: &Aggregations, batches: &[&[u64]]) -> Vec<IntermediateAggregationResults> {
    let mut schema_builder = Schema::builder();
    let value = schema_builder.add_u64_field("value", FAST);
    let index = Index::create_in_ram(schema_builder.build());
    let mut writer = index.writer_with_num_threads(1, 15_000_000).unwrap();
    writer.set_merge_policy(Box::new(NoMergePolicy));
    for batch in batches.iter() {
        for number in batch.iter() {
            let mut document = Document::default();
            document.add_u64(value, *number);
            writer.add_document(document).unwrap();
        }
        writer.commit().unwrap();
    }
    let reader = index.reader().unwrap();
    let searcher = reader.searcher();
    assert_eq!(searcher.segment_readers().len(), batches.len());
    let limits = AggregationLimits::default();
    let mut fruits = Vec::new();
    for segment_reader in searcher.segment_readers() {
        let mut collector =
            AggregationSegmentCollector::from_agg_req_and_reader(aggregations, segment_reader, &limits)
                .unwrap();
        for doc_id in 0..segment_reader.max_doc() {
            collector.collect(doc_id, 0.0);
        }
        fruits.push(collector.harvest().unwrap());
    }
    fruits
}

fn serialized(fruits: &[IntermediateAggregationResults]) -> Vec<Vec<u8>> {
    fruits
        .iter()
        .map(|fruit| serialize_intermediate(fruit).unwrap())
        .collect()
}

fn final_number(aggregations: &Aggregations, state: &[u8], name: &str) -> f64 {
    let fruit = deserialize_intermediate(state).unwrap();
    let results = fruit
        .into_final_result(aggregations.clone(), &AggregationLimits::default())
        .unwrap();
    let json = serde_json::to_value(&results).unwrap();
    json[name]["value"].as_f64().unwrap()
}

fn response_with_state(state: Option<Vec<u8>>) -> LeafSearchResponse {
    LeafSearchResponse {
        num_hits: 1,
        partial_hits: Vec::new(),
        intermediate_aggregation_result: state,
        failed_splits: Vec::new(),
        num_attempted_splits: 1,
    }
}

fn no_trace_ids(_fruits: Vec<Vec<u8>>) -> Result<Vec<u8>, String> {
    panic!("there is no trace-id fruit to merge")
}

#[test]
fn test_intermediate_round_trip() {
    let aggregations = parse_aggregations(SUM_AND_COUNT).unwrap();
    for fruit in segment_fruits(&aggregations, &[&[1, 2, 3], &[10, 20], &[7]]) {
        let bytes = serialize_intermediate(&fruit).unwrap();
        assert_eq!(deserialize_intermediate(&bytes).unwrap(), fruit);
        // The encoding is the same each time.
        assert_eq!(serialize_intermediate(&fruit).unwrap(), bytes);
    }
}

#[test]
fn test_merge_tantivy_intermediates() {
    let aggregations = parse_aggregations(SUM_AND_COUNT).unwrap();
    let fruits = serialized(&segment_fruits(&aggregations, &[&[1, 2, 3], &[10, 20], &[100]]));
    let merged = merge_tantivy_intermediates(&fruits).unwrap().unwrap();
    assert_eq!(final_number(&aggregations, &merged, "total"), 136.0);
    assert_eq!(final_number(&aggregations, &merged, "count"), 6.0);
    // A single state comes back as it is.
    let alone = merge_tantivy_intermediates(&fruits[..1].to_vec()).unwrap().unwrap();
    assert_eq!(alone, fruits[0]);
    assert_eq!(final_number(&aggregations, &alone, "total"), 6.0);
}

#[test]
fn test_merge_tantivy_intermediates_of_nothing() {
    assert_eq!(merge_tantivy_intermediates(&Vec::new()), Ok(None));
}

#[test]
fn test_merge_tantivy_intermediates_refuses_garbage() {
    let aggregations = parse_aggregations(SUM_AND_COUNT).unwrap();
    let mut fruits = serialized(&segment_fruits(&aggregations, &[&[1, 2, 3]]));
    fruits.push(vec![0xFF, 0xFF, 0xFF, 0xFF, 0xFF, 0xFF, 0xFF, 0xFF, 0xFF, 0xFF, 0xFF]);
    match merge_tantivy_intermediates(&fruits) {
        Err(SearchError::Internal(message)) => assert!(!message.is_empty()),
        other => panic!("garbage was merged: {:?}", other),
    }
    match deserialize_intermediate(&[0xFF, 0xFF, 0xFF, 0xFF, 0xFF, 0xFF, 0xFF, 0xFF, 0xFF, 0xFF, 0xFF]) {
        Err(SearchError::Internal(_)) => {}
        other => panic!("garbage was read: {:?}", other),
    }
}

#[test]
fn test_aggregation_merge_associativity() {
    let aggregations = parse_aggregations(SUM_AND_COUNT).unwrap();
    let fruits = serialized(&segment_fruits(&aggregations, &[&[1, 2, 3], &[10, 20], &[100]]));
    let first_two = merge_tantivy_intermediates(&fruits[..2].to_vec()).unwrap().unwrap();
    let left = merge_tantivy_intermediates(&vec![first_two, fruits[2].clone()])
        .unwrap()
        .unwrap();
    let last_two = merge_tantivy_intermediates(&fruits[1..].to_vec()).unwrap().unwrap();
    let right = merge_tantivy_intermediates(&vec![fruits[0].clone(), last_two])
        .unwrap()
        .unwrap();
    assert_eq!(
        deserialize_intermediate(&left).unwrap(),
        deserialize_intermediate(&right).unwrap()
    );
    let at_once = merge_tantivy_intermediates(&fruits).unwrap().unwrap();
    assert_eq!(
        deserialize_intermediate(&left).unwrap(),
        deserialize_intermediate(&at_once).unwrap()
    );
}

#[test]
fn test_merge_fruits_merges_tantivy_states() {
    let aggregations = parse_aggregations(SUM_AND_COUNT).unwrap();
    let fruits = serialized(&segment_fruits(&aggregations, &[&[1, 2, 3], &[10, 20]]));
    let responses = vec![
        Ok(response_with_state(Some(fruits[0].clone()))),
        Ok(response_with_state(None)),
        Ok(response_with_state(Some(fruits[1].clone()))),
    ];
    let merger = QuickwitCollector {
        split_id: String::new(),
        start_offset: 0,
        max_hits: 10,
        sort_by: SortBy::DocId,
        timestamp_filter_builder_opt: None,
        aggregation: Some(QuickwitAggregations::TantivyAggregations(aggregations.clone())),
        aggregation_limits: AggregationLimits::default(),
    };
    let merged = merger.merge_fruits(responses, no_trace_ids).unwrap();
    assert_eq!(merged.num_hits, 3);
    let state = merged.intermediate_aggregation_result.unwrap();
    assert_eq!(final_number(&aggregations, &state, "total"), 36.0);
    assert_eq!(final_number(&aggregations, &state, "count"), 5.0);
}

#[test]
fn test_merge_fruits_refuses_a_garbled_state() {
    let aggregations = parse_aggregations(SUM_AND_COUNT).unwrap();
    let fruits = serialized(&segment_fruits(&aggregations, &[&[1, 2, 3]]));
    let responses = vec![
        Ok(response_with_state(Some(fruits[0].clone()))),
        Ok(response_with_state(Some(vec![0xFF; 11]))),
    ];
    let merger = QuickwitCollector {
        split_id: String::new(),
        start_offset: 0,
        max_hits: 10,
        sort_by: SortBy::DocId,
        timestamp_filter_builder_opt: None,
        aggregation: Some(QuickwitAggregations::TantivyAggregations(aggregations)),
        aggregation_limits: AggregationLimits::default(),
    };
    match merger.merge_fruits(responses, no_trace_ids) {
        Err(SearchError::Internal(_)) => {}
        other => panic!("a garbled state was merged: {:?}", other),
    }
}

#[test]
fn test_intermediate_aggregation_results_keeps_order_and_skips_absent() {
    let responses = vec![
        response_with_state(Some(vec![3])),
        response_with_state(None),
        response_with_state(Some(vec![1, 1])),
        response_with_state(Some(Vec::new())),
        response_with_state(None),
    ];
    assert_eq!(
        intermediate_aggregation_results(&responses),
        vec![vec![3u8], vec![1, 1], Vec::new()]
    );
    assert_eq!(intermediate_aggregation_results(&Vec::new()), Vec::<Vec<u8>>::new());
}

#[test]
fn test_parse_aggregations_refuses_bad_json() {
    match parse_aggregations("{ not json") {
        Err(SearchError::InvalidArgument(message)) => assert!(!message.is_empty()),
        other => panic!("bad JSON was read: {:?}", other),
    }
    match parse_aggregations(r#"{ "total": { "no_such_aggregation": { "field": "value" } } }"#) {
        Err(SearchError::InvalidArgument(_)) => {}
        other => panic!("an unknown aggregation was read: {:?}", other),
    }
    assert_eq!(parse_aggregations("{}").unwrap().len(), 0);
    assert_eq!(parse_aggregations(SUM_AND_COUNT).unwrap().len(), 2);
}

#[test]
fn test_fast_field_names_of_tantivy_aggregations() {
    let aggregations = parse_aggregations(
        r#"{
            "by_category": {
                "terms": { "field": "category" },
                "aggs": {
                    "mean": { "avg": { "field": "price" } },
                    "high": { "max": { "field": "price" } }
                }
            },
            "total": { "sum": { "field": "quantity" } }
        }"#,
    )
    .unwrap();
    let mut names = QuickwitAggregations::TantivyAggregations(aggregations).fast_field_names();
    names.sort();
    assert_eq!(names, vec!["category", "price", "quantity"]);
}

#[test]
fn test_fast_field_names_of_a_trace_id_finder() {
    let finder = FindTraceIdsCollector {
        fast_field_names: vec!["trace_id".to_string(), "span_start".to_string()],
    };
    let names = QuickwitAggregations::FindTraceIdsAggregation(finder).fast_field_names();
    assert_eq!(names, vec!["trace_id", "span_start"]);
}

#[test]
fn test_collector_fast_field_names_are_a_union() {
    let aggregations = parse_aggregations(
        r#"{
            "total": { "sum": { "field": "price" } },
            "latest": { "max": { "field": "timestamp" } }
        }"#,
    )
    .unwrap();
    let collector = QuickwitCollector {
        split_id: "split".to_string(),
        start_offset: 0,
        max_hits: 10,
        sort_by: SortBy::FastField {
            field_name: "price".to_string(),
            order: SortOrder::Asc,
        },
        timestamp_filter_builder_opt: Some(TimestampFilterBuilder {
            timestamp_field_name: "timestamp".to_string(),
            start_timestamp: Some(10),
            end_timestamp: None,
        }),
        aggregation: Some(QuickwitAggregations::TantivyAggregations(aggregations)),
        aggregation_limits: AggregationLimits::default(),
    };
    let mut names = collector.fast_field_names();
    names.sort();
    assert_eq!(names, vec!["price", "timestamp"]);
    assert!(!collector.requires_scoring());
    let warmup_info = collector.warmup_info();
    let mut warmup_names = warmup_info.fast_field_names.clone();
    warmup_names.sort();
    assert_eq!(warmup_names, vec!["price", "timestamp"]);
    assert!(!warmup_info.field_norms);
    assert!(warmup_info.term_dict_field_names.is_empty());
    assert!(warmup_info.posting_field_names.is_empty());
}

#[test]
fn test_collector_fast_field_names_without_any() {
    let collector = QuickwitCollector {
        split_id: "split".to_string(),
        start_offset: 0,
        max_hits: 10,
        sort_by: SortBy::Score { order: SortOrder::Desc },
        timestamp_filter_builder_opt: None,
        aggregation: None,
        aggregation_limits: AggregationLimits::default(),
    };
    assert_eq!(collector.fast_field_names(), Vec::<String>::new());
    assert!(collector.requires_scoring());
    assert!(collector.warmup_info().field_norms);
    let finder = FindTraceIdsCollector {
        fast_field_names: vec!["span".to_string(), "trace".to_string(), "span".to_string()],
    };
    let collector = QuickwitCollector {
        split_id: "split".to_string(),
        start_offset: 0,
        max_hits: 10,
        sort_by: SortBy::FastField {
            field_name: "trace".to_string(),
            order: SortOrder::Desc,
        },
        timestamp_filter_builder_opt: None,
        aggregation: Some(QuickwitAggregations::FindTraceIdsAggregation(finder)),
        aggregation_limits: AggregationLimits::default(),
    };
    assert_eq!(collector.fast_field_names(), vec!["trace", "span"]);
}

#[test]
fn test_search_error_from_tantivy() {
    let over = TantivyError::AggregationError(AggregationError::BucketLimitExceeded {
        limit: 1,
        current: 2,
    });
    match search_error_from_tantivy(&over) {
        SearchError::AggregationLimitExceeded { message, limit } => {
            assert_eq!(message, over.to_string());
            assert_eq!(
                limit,
                LimitExceeded::Buckets {
                    limit: 1,
                    current: 2
                }
            );
        }
        other => panic!("{:?}", other),
    }
    let invalid = TantivyError::AggregationError(AggregationError::InvalidRequest(
        "bad".to_string(),
    ));
    match search_error_from_tantivy(&invalid) {
        SearchError::Internal(message) => assert_eq!(message, invalid.to_string()),
        other => panic!("{:?}", other),
    }
    let internal = TantivyError::InternalError("broken".to_string());
    assert_eq!(
        search_error_from_tantivy(&internal),
        SearchError::Internal("Internal error: 'broken'".to_string())
    );
}

#[test]
fn test_aggregation_limits_from_searcher_context() {
    let aggregations = parse_aggregations(TERMS).unwrap();
    let fruits = segment_fruits(&aggregations, &[&[1, 2, 3]]);
    let tight = aggregation_limits_from_searcher_context(&SearcherContext {
        aggregation_memory_limit: 1_000_000,
        aggregation_bucket_limit: 2,
    });
    match fruits[0].clone().into_final_result(aggregations.clone(), &tight) {
        Err(TantivyError::AggregationError(AggregationError::BucketLimitExceeded {
            limit,
            current,
        })) => {
            assert_eq!(limit, 2);
            assert_eq!(current, 3);
        }
        _ => panic!("three buckets came out under a limit of two"),
    }
    let wide = aggregation_limits_from_searcher_context(&SearcherContext {
        aggregation_memory_limit: 1_000_000,
        aggregation_bucket_limit: 3,
    });
    assert!(fruits[0].clone().into_final_result(aggregations, &wide).is_ok());
}

fn index_of(batches: &[&[u64]]) -> Searcher {
    let mut schema_builder = Schema::builder();
    let value = schema_builder.add_u64_field("value", FAST);
    let index = Index::create_in_ram(schema_builder.build());
    let mut writer = index.writer_with_num_threads(1, 15_000_000).unwrap();
    writer.set_merge_policy(Box::new(NoMergePolicy));
    for batch in batches.iter() {
        for number in batch.iter() {
            let mut document = Document::default();
            document.add_u64(value, *number);
            writer.add_document(document).unwrap();
        }
        writer.commit().unwrap();
    }
    index.reader().unwrap().searcher()
}

fn aggregating_collector(aggregations: &Aggregations) -> QuickwitCollector {
    QuickwitCollector {
        split_id: "split".to_string(),
        start_offset: 0,
        max_hits: 2,
        sort_by: SortBy::FastField {
            field_name: "value".to_string(),
            order: SortOrder::Desc,
        },
        timestamp_filter_builder_opt: Some(TimestampFilterBuilder {
            timestamp_field_name: "value".to_string(),
            start_timestamp: None,
            end_timestamp: Some(100),
        }),
        aggregation: Some(QuickwitAggregations::TantivyAggregations(aggregations.clone())),
        aggregation_limits: AggregationLimits::default(),
    }
}

#[test]
fn test_collection_aggregates_the_documents_that_count() {
    let aggregations = parse_aggregations(SUM_AND_COUNT).unwrap();
    let collector = aggregating_collector(&aggregations);
    let searcher = index_of(&[&[1, 200, 3], &[10, 20, 300, 400]]);
    let mut fruits = Vec::new();
    let mut best_keys = Vec::new();
    for (segment_ord, segment_reader) in searcher.segment_readers().iter().enumerate() {
        let column = segment_reader
            .fast_fields()
            .u64_lenient("value")
            .unwrap()
            .unwrap()
            .0;
        // Values below 100 are in the window.
        let filter = TimestampFilter::new(column.clone(), None, Some(100));
        let aggregation_collector = AggregationSegmentCollector::from_agg_req_and_reader(
            &aggregations,
            segment_reader,
            &collector.aggregation_limits,
        )
        .unwrap();
        let mut segment_collector = collector
            .for_segment(
                segment_ord as u32,
                segment_reader.max_doc(),
                Some(column),
                Some(filter),
                Some(aggregation_collector),
            )
            .unwrap();
        for doc_id in 0..segment_reader.max_doc() {
            segment_collector.collect(doc_id, 1.0f32.to_bits());
        }
        let fruit = segment_collector.harvest(None).unwrap();
        best_keys.push(fruit.partial_hits[0].sorting_field_value);
        let state = fruit.intermediate_aggregation_result.clone().unwrap();
        let total = final_number(&aggregations, &state, "total");
        assert_eq!(fruit.num_hits as f64, final_number(&aggregations, &state, "count"));
        assert!(total == 4.0 || total == 30.0);
        fruits.push(Ok(fruit));
    }
    best_keys.sort();
    assert_eq!(best_keys, vec![3, 20]);
    let merged = collector.merge_fruits(fruits, no_trace_ids).unwrap();
    assert_eq!(merged.num_hits, 4);
    assert_eq!(merged.num_attempted_splits, 2);
    let keys: Vec<u64> = merged
        .partial_hits
        .iter()
        .map(|hit| hit.sorting_field_value)
        .collect();
    assert_eq!(keys, vec![20, 10]);
    let state = merged.intermediate_aggregation_result.unwrap();
    assert_eq!(final_number(&aggregations, &state, "total"), 34.0);
    assert_eq!(final_number(&aggregations, &state, "count"), 4.0);
}

#[test]
fn test_for_segment_refuses_a_segment_without_its_aggregations() {
    let aggregations = parse_aggregations(SUM_AND_COUNT).unwrap();
    let mut collector = aggregating_collector(&aggregations);
    collector.timestamp_filter_builder_opt = None;
    match collector.for_segment(0, 3, None, None, None) {
        Err(SearchError::SegmentIo(_)) => {}
        _ => panic!("a segment was taken without its aggregations"),
    }
}

#[test]
fn test_harvest_surfaces_the_limit_of_the_aggregations() {
    let aggregations = parse_aggregations(TERMS).unwrap();
    let numbers: Vec<u64> = (0..5000u64).collect();
    let searcher = index_of(&[&numbers]);
    let segment_reader = &searcher.segment_readers()[0];
    let mut collector = aggregating_collector(&aggregations);
    collector.timestamp_filter_builder_opt = None;
    collector.sort_by = SortBy::DocId;
    collector.aggregation_limits = aggregation_limits_from_searcher_context(&SearcherContext {
        aggregation_memory_limit: 1_000,
        aggregation_bucket_limit: 65000,
    });
    let aggregation_collector = AggregationSegmentCollector::from_agg_req_and_reader(
        &aggregations,
        segment_reader,
        &collector.aggregation_limits,
    )
    .unwrap();
    let mut segment_collector = collector
        .for_segment(0, segment_reader.max_doc(), None, None, Some(aggregation_collector))
        .unwrap();
    for doc_id in 0..segment_reader.max_doc() {
        assert!(segment_collector.collect(doc_id, 0));
    }
    assert_eq!(segment_collector.num_hits(), 5000);
    match segment_collector.harvest(None) {
        Err(SearchError::AggregationLimitExceeded { message, limit }) => {
            assert!(!message.is_empty());
            match limit {
                LimitExceeded::Memory { limit, current } => {
                    assert_eq!(limit, 1_000);
                    assert!(current > limit);
                }
                other => panic!("not the memory limit: {:?}", other),
            }
        }
        other => panic!("the aggregations went past their memory: {:?}", other),
    }
}

#[test]
fn test_invalid_argument_from_json() {
    let refusal = serde_json::from_str::<Aggregations>("{ not json").unwrap_err();
    assert_eq!(
        invalid_argument_from_json(&refusal),
        SearchError::InvalidArgument(refusal.to_string())
    );
    assert_eq!(
        parse_aggregations("{ not json").unwrap_err(),
        SearchError::InvalidArgument(refusal.to_string())
    );
}

#[test]
fn test_internal_error_from_postcard() {
    assert_eq!(
        internal_error_from_postcard(&postcard::Error::DeserializeUnexpectedEnd),
        SearchError::Internal(
            "Merge Result Postcard Error: Hit the end of buffer, expected more data".to_string()
        )
    );
    assert_eq!(
        internal_error_from_postcard(&postcard::Error::SerdeDeCustom),
        SearchError::Internal(format!(
            "Merge Result Postcard Error: {}",
            postcard::Error::SerdeDeCustom
        ))
    );
    assert_eq!(
        deserialize_intermediate(&[]).unwrap_err(),
        SearchError::Internal(format!(
            "Merge Result Postcard Error: {}",
            postcard::Error::DeserializeUnexpectedEnd
        ))
    );
}

#[test]
fn test_parse_aggregations_reads_the_text() {
    let read = parse_aggregations(TERMS).unwrap();
    assert_eq!(read, serde_json::from_str::<Aggregations>(TERMS).unwrap());
    assert_eq!(read, parse_aggregations(TERMS).unwrap());
    let names: Vec<&String> = read.keys().collect();
    assert_eq!(names, vec!["by_value"]);
    assert!(read != parse_aggregations(SUM_AND_COUNT).unwrap());
}

#[test]
fn test_deserialize_intermediate_reads_the_same_state_each_time() {
    let aggregations = parse_aggregations(SUM_AND_COUNT).unwrap();
    let fruits = segment_fruits(&aggregations, &[&[1, 2, 3], &[10, 20]]);
    let states = serialized(&fruits);
    assert_eq!(
        deserialize_intermediate(&states[0]).unwrap(),
        deserialize_intermediate(&states[0]).unwrap()
    );
    assert!(deserialize_intermediate(&states[0]).unwrap() != deserialize_intermediate(&states[1]).unwrap());
}

#[test]
fn test_merge_tantivy_intermediates_refuses_garbage_before_merging() {
    let aggregations = parse_aggregations(SUM_AND_COUNT).unwrap();
    let mut fruits = serialized(&segment_fruits(&aggregations, &[&[1, 2, 3], &[10, 20]]));
    fruits.push(Vec::new());
    assert_eq!(
        merge_tantivy_intermediates(&fruits),
        Err(SearchError::Internal(format!(
            "Merge Result Postcard Error: {}",
            postcard::Error::DeserializeUnexpectedEnd
        )))
    );
}

#[test]
fn test_trace_id_marker_collects_nothing() {
    let mut marker = AggregationSegmentCollectors::FindTraceIdsSegmentCollector;
    marker.collect(3, 0);
    assert!(matches!(
        marker,
        AggregationSegmentCollectors::FindTraceIdsSegmentCollector
    ));
    assert_eq!(marker.harvest(Some(vec![7u8])), Ok(Some(vec![7u8])));
}

#[test]
fn test_merge_fruits_refuses_unreadable_bytes_with_an_internal_error() {
    let aggregations = parse_aggregations(SUM_AND_COUNT).unwrap();
    let fruits = serialized(&segment_fruits(&aggregations, &[&[1, 2, 3]]));
    let responses = vec![
        Ok(response_with_state(Some(fruits[0].clone()))),
        Ok(response_with_state(Some(Vec::new()))),
    ];
    let merger = QuickwitCollector {
        split_id: String::new(),
        start_offset: 0,
        max_hits: 10,
        sort_by: SortBy::DocId,
        timestamp_filter_builder_opt: None,
        aggregation: Some(QuickwitAggregations::TantivyAggregations(aggregations)),
        aggregation_limits: AggregationLimits::default(),
    };
    assert_eq!(
        merger.merge_fruits(responses.clone(), no_trace_ids),
        Err(SearchError::Internal(format!(
            "Merge Result Postcard Error: {}",
            postcard::Error::DeserializeUnexpectedEnd
        )))
    );
    // Without an aggregation the bytes are never read.
    let mut plain = merger.clone();
    plain.aggregation = None;
    let merged = plain.merge_fruits(responses, no_trace_ids).unwrap();
    assert_eq!(merged.intermediate_aggregation_result, None);
    assert_eq!(merged.num_hits, 2);
}

#[test]
fn test_merge_is_the_left_fold_in_input_order() {
    let aggregations = parse_aggregations(SUM_AND_COUNT).unwrap();
    let states = segment_fruits(&aggregations, &[&[1, 2, 3], &[10, 20], &[100]]);
    let fruits = serialized(&states);
    let mut folded = deserialize_intermediate(&fruits[0]).unwrap();
    folded
        .merge_fruits(deserialize_intermediate(&fruits[1]).unwrap())
        .unwrap();
    folded
        .merge_fruits(deserialize_intermediate(&fruits[2]).unwrap())
        .unwrap();
    assert_eq!(
        merge_tantivy_intermediates(&fruits).unwrap().unwrap(),
        serialize_intermediate(&folded).unwrap()
    );
}

#[test]
fn test_a_lone_state_is_read_back_and_written_again() {
    let aggregations = parse_aggregations(TERMS).unwrap();
    let states = segment_fruits(&aggregations, &[&[4, 4, 9]]);
    let fruits = serialized(&states);
    let responses = vec![
        Ok(response_with_state(Some(fruits[0].clone()))),
        Ok(response_with_state(None)),
    ];
    let merger = QuickwitCollector {
        split_id: String::new(),
        start_offset: 0,
        max_hits: 10,
        sort_by: SortBy::DocId,
        timestamp_filter_builder_opt: None,
        aggregation: Some(QuickwitAggregations::TantivyAggregations(aggregations)),
        aggregation_limits: AggregationLimits::default(),
    };
    let merged = merger.merge_fruits(responses, no_trace_ids).unwrap();
    let state = merged.intermediate_aggregation_result.unwrap();
    assert_eq!(deserialize_intermediate(&state).unwrap(), states[0]);
}

#[test]
fn test_rejected_documents_are_not_aggregated() {
    let aggregations = parse_aggregations(SUM_AND_COUNT).unwrap();
    let collector = aggregating_collector(&aggregations);
    let searcher = index_of(&[&[500, 600, 7]]);
    let segment_reader = &searcher.segment_readers()[0];
    let column = segment_reader
        .fast_fields()
        .u64_lenient("value")
        .unwrap()
        .unwrap()
        .0;
    let filter = TimestampFilter::new(column.clone(), None, Some(100));
    let aggregation_collector = AggregationSegmentCollector::from_agg_req_and_reader(
        &aggregations,
        segment_reader,
        &collector.aggregation_limits,
    )
    .unwrap();
    let mut segment_collector = collector
        .for_segment(0, 3, Some(column), Some(filter), Some(aggregation_collector))
        .unwrap();
    assert!(!segment_collector.collect(0, 0));
    assert!(!segment_collector.collect(1, 0));
    assert!(segment_collector.collect(2, 0));
    let fruit = segment_collector.harvest(None).unwrap();
    assert_eq!(fruit.num_hits, 1);
    let state = fruit.intermediate_aggregation_result.unwrap();
    assert_eq!(final_number(&aggregations, &state, "total"), 7.0);
    assert_eq!(final_number(&aggregations, &state, "count"), 1.0);
}

#[test]
fn test_documents_past_the_capacity_are_aggregated() {
    let aggregations = parse_aggregations(SUM_AND_COUNT).unwrap();
    let mut collector = aggregating_collector(&aggregations);
    collector.timestamp_filter_builder_opt = None;
    collector.max_hits = 1;
    let searcher = index_of(&[&[5, 4, 3, 2, 1]]);
    let segment_reader = &searcher.segment_readers()[0];
    let column = segment_reader
        .fast_fields()
        .u64_lenient("value")
        .unwrap()
        .unwrap()
        .0;
    let aggregation_collector = AggregationSegmentCollector::from_agg_req_and_reader(
        &aggregations,
        segment_reader,
        &collector.aggregation_limits,
    )
    .unwrap();
    let mut segment_collector = collector
        .for_segment(0, 5, Some(column), None, Some(aggregation_collector))
        .unwrap();
    for doc_id in 0..5u32 {
        assert!(segment_collector.collect(doc_id, 0));
    }
    let fruit = segment_collector.harvest(None).unwrap();
    assert_eq!(fruit.partial_hits.len(), 1);
    let state = fruit.intermediate_aggregation_result.unwrap();
    assert_eq!(final_number(&aggregations, &state, "total"), 15.0);
    assert_eq!(final_number(&aggregations, &state, "count"), 5.0);
}

#[test]
fn test_harvest_writes_the_state_of_the_aggregations() {
    let aggregations = parse_aggregations(SUM_AND_COUNT).unwrap();
    let mut collector = aggregating_collector(&aggregations);
    collector.timestamp_filter_builder_opt = None;
    let searcher = index_of(&[&[5, 4, 3]]);
    let segment_reader = &searcher.segment_readers()[0];
    let set_up = || {
        AggregationSegmentCollector::from_agg_req_and_reader(
            &aggregations,
            segment_reader,
            &collector.aggregation_limits,
        )
        .unwrap()
    };
    let mut beside = set_up();
    let mut segment_collector = collector
        .for_segment(0, 3, None, None, Some(set_up()))
        .unwrap();
    for doc_id in 0..3u32 {
        segment_collector.collect(doc_id, 0);
        beside.collect(doc_id, 0.0);
    }
    let fruit = segment_collector.harvest(None).unwrap();
    assert_eq!(
        fruit.intermediate_aggregation_result.unwrap(),
        serialize_intermediate(&beside.harvest().unwrap()).unwrap()
    );
}
