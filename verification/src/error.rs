use vstd::prelude::*;

verus! {

/// Which limit an aggregation went past: the limit, and what the aggregation
/// had come to.
#[derive(Clone, Copy, Debug, PartialEq, Eq, Structural)]
pub enum LimitExceeded {
    /// The memory that the aggregations of a request may use, in bytes.
    Memory { limit: u64, current: u64 },
    /// The number of buckets that an aggregation may return.
    Buckets { limit: u32, current: u32 },
}

/// Why a search, or a step of it, failed.
#[derive(Clone, Debug, PartialEq, Eq)]
pub enum SearchError {
    /// The request is malformed: its aggregation or its sort directive.
    InvalidArgument(String),
    /// A fast field could not be resolved, or the timestamp filter not built.
    SegmentIo(String),
    /// An aggregation state could not be serialized, read back or merged.
    Internal(String),
    /// An aggregation went past its memory or bucket limit.
    AggregationLimitExceeded { message: String, limit: LimitExceeded },
}

} // verus!
