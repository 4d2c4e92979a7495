//! The leaf search collector: ranks the documents that a segment scan finds,
//! keeps the best of them, counts them within a time window, carries the
//! state of an aggregation, and merges the results of segments and splits
//! into one leaf response.

pub mod aggregation;
pub mod collector;
pub mod column;
pub mod error;
pub mod field_names;
pub mod heap_item;
pub mod hit_heap;
pub mod leaf_response;
pub mod merge;
pub mod partial_hit;
pub mod segment_collector;
pub mod sort_key;
pub mod timestamp_filter;
pub mod top_k;
