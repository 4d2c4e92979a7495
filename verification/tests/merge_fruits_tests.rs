use leaf_collector::aggregation::{FindTraceIdsCollector, QuickwitAggregations};
use leaf_collector::collector::QuickwitCollector;
use leaf_collector::error::{LimitExceeded, SearchError};
use leaf_collector::leaf_response::{LeafSearchResponse, SplitSearchError};
use leaf_collector::merge::{merge_leaf_responses, merge_leaf_responses_with};
use leaf_collector::partial_hit::PartialHit;
use leaf_collector::sort_key::SortBy;
use std::collections::HashMap;
use tantivy::aggregation::AggregationLimits;

fn merger(start_offset: usize, max_hits: usize, aggregation: Option<QuickwitAggregations>) -> QuickwitCollector {
    QuickwitCollector {
        split_id: String::new(),
        start_offset,
        max_hits,
        sort_by: SortBy::DocId,
        timestamp_filter_builder_opt: None,
        aggregation,
        aggregation_limits: AggregationLimits::default(),
    }
}

fn key_hit(sorting_field_value: u64) -> PartialHit {
    PartialHit {
        sorting_field_value,
        split_id: "split".to_string(),
        segment_ord: 0,
        doc_id: 0,
    }
}

fn fruit_with_keys(keys: &[u64]) -> LeafSearchResponse {
    LeafSearchResponse {
        num_hits: keys.len() as u64,
        partial_hits: keys.iter().map(|key| key_hit(*key)).collect(),
        intermediate_aggregation_result: None,
        failed_splits: Vec::new(),
        num_attempted_splits: 1,
    }
}

fn failed(split_id: &str) -> SplitSearchError {
    SplitSearchError {
        error: "unavailable".to_string(),
        split_id: split_id.to_string(),
        retryable_error: true,
    }
}

fn trace_ids() -> Option<QuickwitAggregations> {
    Some(QuickwitAggregations::FindTraceIdsAggregation(
        FindTraceIdsCollector {
            fast_field_names: vec!["trace_id".to_string()],
        },
    ))
}

fn no_trace_ids(_fruits: Vec<Vec<u8>>) -> Result<Vec<u8>, String> {
    panic!("there is no trace-id fruit to merge")
}

fn join_trace_ids(fruits: Vec<Vec<u8>>) -> Result<Vec<u8>, String> {
    Ok(fruits.join(&0u8))
}

fn refuse_trace_ids(_fruits: Vec<Vec<u8>>) -> Result<Vec<u8>, String> {
    Err("the fruits do not fit".to_string())
}

#[test]
fn test_offset_drop() {
    let fruits: Vec<Result<LeafSearchResponse, SearchError>> = [5u64, 4, 3, 2, 1]
        .iter()
        .map(|key| Ok(fruit_with_keys(&[*key])))
        .collect();
    let merged = merger(2, 2, None).merge_fruits(fruits, no_trace_ids).unwrap();
    assert_eq!(merged.partial_hits, vec![key_hit(3), key_hit(2)]);
    assert_eq!(merged.num_hits, 5);
    assert_eq!(merged.num_attempted_splits, 5);
    assert_eq!(merged.intermediate_aggregation_result, None);
}

#[test]
fn test_offset_past_the_hits_leaves_none() {
    let fruits = vec![Ok(fruit_with_keys(&[5])), Ok(fruit_with_keys(&[4]))];
    let merged = merger(3, 2, None).merge_fruits(fruits, no_trace_ids).unwrap();
    assert_eq!(merged.partial_hits, Vec::new());
    assert_eq!(merged.num_hits, 2);
}

#[test]
fn test_merge_of_a_single_fruit_is_the_fruit() {
    let mut fruit = fruit_with_keys(&[9, 8, 7]);
    fruit.num_hits = 40;
    fruit.num_attempted_splits = 3;
    fruit.intermediate_aggregation_result = Some(vec![1, 2, 3]);
    fruit.failed_splits = vec![failed("split_9")];
    let merged = merger(2, 1, trace_ids())
        .merge_fruits(vec![Ok(fruit.clone())], no_trace_ids)
        .unwrap();
    assert_eq!(merged, fruit);
    let merged = merge_leaf_responses(&None, vec![fruit.clone()], 0, no_trace_ids).unwrap();
    assert_eq!(merged, fruit);
}

#[test]
fn test_merge_of_no_fruit() {
    let merged = merger(2, 2, None).merge_fruits(Vec::new(), no_trace_ids).unwrap();
    assert_eq!(
        merged,
        LeafSearchResponse {
            num_hits: 0,
            partial_hits: Vec::new(),
            intermediate_aggregation_result: None,
            failed_splits: Vec::new(),
            num_attempted_splits: 0,
        }
    );
}

#[test]
fn test_merge_propagates_the_first_error() {
    let fruits = vec![
        Ok(fruit_with_keys(&[5])),
        Err(SearchError::SegmentIo("first".to_string())),
        Ok(fruit_with_keys(&[4])),
        Err(SearchError::Internal("second".to_string())),
    ];
    assert_eq!(
        merger(0, 2, None).merge_fruits(fruits, no_trace_ids),
        Err(SearchError::SegmentIo("first".to_string()))
    );
    let fruits = vec![Err(SearchError::AggregationLimitExceeded {
        message: "only".to_string(),
        limit: LimitExceeded::Buckets {
            limit: 1,
            current: 2,
        },
    })];
    assert_eq!(
        merger(0, 2, None).merge_fruits(fruits, no_trace_ids),
        Err(SearchError::AggregationLimitExceeded {
        message: "only".to_string(),
        limit: LimitExceeded::Buckets {
            limit: 1,
            current: 2,
        },
    })
    );
}

#[test]
fn test_merge_sums_counters_and_concatenates_failed_splits() {
    let mut first = fruit_with_keys(&[5, 1]);
    first.num_hits = 10;
    first.num_attempted_splits = 2;
    first.failed_splits = vec![failed("a"), failed("b")];
    let mut second = fruit_with_keys(&[]);
    second.num_hits = 0;
    second.num_attempted_splits = 4;
    let mut third = fruit_with_keys(&[7]);
    third.num_hits = 32;
    third.num_attempted_splits = 1;
    third.failed_splits = vec![failed("c")];
    let merged = merger(0, 2, None)
        .merge_fruits(vec![Ok(first), Ok(second), Ok(third)], no_trace_ids)
        .unwrap();
    assert_eq!(merged.num_hits, 42);
    assert_eq!(merged.num_attempted_splits, 7);
    assert_eq!(merged.failed_splits, vec![failed("a"), failed("b"), failed("c")]);
    assert_eq!(merged.partial_hits, vec![key_hit(7), key_hit(5)]);
}

#[test]
fn test_merge_leaf_responses_with_keeps_max_hits() {
    let merged = merge_leaf_responses_with(
        Some(vec![7u8]),
        vec![fruit_with_keys(&[4, 2]), fruit_with_keys(&[9, 3, 1])],
        3,
    );
    assert_eq!(merged.partial_hits, vec![key_hit(9), key_hit(4), key_hit(3)]);
    assert_eq!(merged.num_hits, 5);
    assert_eq!(merged.num_attempted_splits, 2);
    assert_eq!(merged.intermediate_aggregation_result, Some(vec![7u8]));
}

#[test]
fn test_merge_without_aggregation_drops_stray_states() {
    let mut first = fruit_with_keys(&[1]);
    first.intermediate_aggregation_result = Some(vec![1]);
    let second = fruit_with_keys(&[2]);
    let merged = merger(0, 5, None)
        .merge_fruits(vec![Ok(first), Ok(second)], no_trace_ids)
        .unwrap();
    assert_eq!(merged.intermediate_aggregation_result, None);
}

#[test]
fn test_merge_hands_trace_id_fruits_over_in_order() {
    let mut first = fruit_with_keys(&[1]);
    first.intermediate_aggregation_result = Some(vec![1, 1]);
    let second = fruit_with_keys(&[2]);
    let mut third = fruit_with_keys(&[3]);
    third.intermediate_aggregation_result = Some(vec![3]);
    let mut fourth = fruit_with_keys(&[4]);
    fourth.intermediate_aggregation_result = Some(vec![2, 2, 2]);
    let merged = merger(0, 5, trace_ids())
        .merge_fruits(
            vec![Ok(first), Ok(second), Ok(third), Ok(fourth)],
            join_trace_ids,
        )
        .unwrap();
    assert_eq!(
        merged.intermediate_aggregation_result,
        Some(vec![1, 1, 0, 3, 0, 2, 2, 2])
    );
    assert_eq!(merged.num_hits, 4);
}

#[test]
fn test_merge_without_any_state_merges_nothing() {
    let merged = merger(0, 5, trace_ids())
        .merge_fruits(
            vec![Ok(fruit_with_keys(&[1])), Ok(fruit_with_keys(&[2]))],
            no_trace_ids,
        )
        .unwrap();
    assert_eq!(merged.intermediate_aggregation_result, None);
    let merged = merger(0, 5, Some(QuickwitAggregations::TantivyAggregations(HashMap::new())))
        .merge_fruits(
            vec![Ok(fruit_with_keys(&[1])), Ok(fruit_with_keys(&[2]))],
            no_trace_ids,
        )
        .unwrap();
    assert_eq!(merged.intermediate_aggregation_result, None);
}

#[test]
fn test_refused_trace_id_merge_is_an_internal_error() {
    let mut first = fruit_with_keys(&[1]);
    first.intermediate_aggregation_result = Some(vec![1]);
    let second = fruit_with_keys(&[2]);
    assert_eq!(
        merger(0, 5, trace_ids()).merge_fruits(vec![Ok(first), Ok(second)], refuse_trace_ids),
        Err(SearchError::Internal("the fruits do not fit".to_string()))
    );
}
