use crate::column::{column_first, column_num_docs, column_values};
use tantivy::fastfield::Column;
use vstd::prelude::*;

verus! {

/// The time window of a search, on the timestamp field of an index: what is
/// needed to build the filter of each segment.
#[derive(Clone, Debug)]
pub struct TimestampFilterBuilder {
    pub timestamp_field_name: String,
    pub start_timestamp: Option<i64>,
    pub end_timestamp: Option<i64>,
}

/// Describes the time window of a search. There is none where the index has
/// no timestamp field or the search bounds the time on neither side.
pub fn create_timestamp_filter_builder(
    timestamp_field_opt: Option<&str>,
    start_timestamp_secs: Option<i64>,
    end_timestamp_secs: Option<i64>,
) -> (builder: Option<TimestampFilterBuilder>)
    ensures
        builder is None <==> (timestamp_field_opt is None || (start_timestamp_secs is None
            && end_timestamp_secs is None)),
        builder matches Some(described) ==> timestamp_field_opt matches Some(field_name)
            && described.timestamp_field_name@ == field_name@ && described.start_timestamp
            == start_timestamp_secs && described.end_timestamp == end_timestamp_secs,
{
    match timestamp_field_opt {
        None => None,
        Some(field_name) => {
            if start_timestamp_secs.is_none() && end_timestamp_secs.is_none() {
                None
            } else {
                Some(
                    TimestampFilterBuilder {
                        timestamp_field_name: field_name.to_owned(),
                        start_timestamp: start_timestamp_secs,
                        end_timestamp: end_timestamp_secs,
                    },
                )
            }
        },
    }
}

/// The time window of a search applied to one segment. Timestamps and bounds
/// are in the unsigned encoding of the segment's timestamp column, which
/// keeps the order of time. A document passes when its first timestamp is at
/// or after the lower bound and before the upper bound; a document without a
/// timestamp does not pass.
pub struct TimestampFilter {
    timestamps: Column<u64>,
    lower_bound: Option<u64>,
    upper_bound: Option<u64>,
}

/// Whether a timestamp lies in a window that starts at `lower_bound` and ends
/// before `upper_bound`, each where it is set.
pub open spec fn in_window(timestamp: u64, lower_bound: Option<u64>, upper_bound: Option<u64>) -> bool {
    &&& lower_bound matches Some(lower) ==> lower <= timestamp
    &&& upper_bound matches Some(upper) ==> timestamp < upper
}

impl TimestampFilter {
    /// The first timestamp of each document of the segment.
    pub closed spec fn timestamps(&self) -> Seq<Option<u64>> {
        column_values(self.timestamps)
    }

    /// The first timestamp that passes, if there is a bound.
    pub closed spec fn lower_bound(&self) -> Option<u64> {
        self.lower_bound
    }

    /// The first timestamp past the window, if there is a bound.
    pub closed spec fn upper_bound(&self) -> Option<u64> {
        self.upper_bound
    }

    /// Whether the document `doc_id` passes.
    pub open spec fn accepts(&self, doc_id: u32) -> bool {
        match self.timestamps()[doc_id as int] {
            Some(timestamp) => in_window(timestamp, self.lower_bound(), self.upper_bound()),
            None => false,
        }
    }

    /// The filter of a segment whose timestamp column is `timestamps`.
    pub fn new(timestamps: Column<u64>, lower_bound: Option<u64>, upper_bound: Option<u64>) -> (filter:
        TimestampFilter)
        ensures
            filter.timestamps() == column_values(timestamps),
            filter.lower_bound() == lower_bound,
            filter.upper_bound() == upper_bound,
    {
        TimestampFilter { timestamps, lower_bound, upper_bound }
    }

    /// The number of documents of the segment.
    pub fn num_docs(&self) -> (num_docs: u32)
        ensures
            num_docs == self.timestamps().len(),
    {
        column_num_docs(&self.timestamps)
    }

    /// Whether the document `doc_id` passes.
    pub fn is_within_range(&self, doc_id: u32) -> (within: bool)
        requires
            doc_id < self.timestamps().len(),
        ensures
            within == self.accepts(doc_id),
    {
        match column_first(&self.timestamps, doc_id) {
            Some(timestamp) => {
                let after_start = match self.lower_bound {
                    Some(lower) => lower <= timestamp,
                    None => true,
                };
                let before_end = match self.upper_bound {
                    Some(upper) => timestamp < upper,
                    None => true,
                };
                after_start && before_end
            },
            None => false,
        }
    }
}

} // verus!
