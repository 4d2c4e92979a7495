use crate::partial_hit::{hit_views, PartialHit, PartialHitView};
use vstd::prelude::*;

verus! {

/// A split that could not be searched, and why.
#[derive(Clone, Debug, PartialEq, Eq)]
pub struct SplitSearchError {
    pub error: String,
    pub split_id: String,
    pub retryable_error: bool,
}

/// The result of searching a segment, a split, or several of them merged:
/// how many documents matched, the best of them from the best on, the
/// aggregation state in its serialized form, and the splits that failed.
#[derive(Clone, Debug, PartialEq, Eq)]
pub struct LeafSearchResponse {
    pub num_hits: u64,
    pub partial_hits: Vec<PartialHit>,
    pub intermediate_aggregation_result: Option<Vec<u8>>,
    pub failed_splits: Vec<SplitSearchError>,
    pub num_attempted_splits: u64,
}

/// The sum of `num_hits` over `responses`.
pub open spec fn total_num_hits(responses: Seq<LeafSearchResponse>) -> nat
    decreases responses.len(),
{
    if responses.len() == 0 {
        0
    } else {
        total_num_hits(responses.drop_last()) + responses.last().num_hits as nat
    }
}

/// The sum of `num_attempted_splits` over `responses`.
pub open spec fn total_attempted_splits(responses: Seq<LeafSearchResponse>) -> nat
    decreases responses.len(),
{
    if responses.len() == 0 {
        0
    } else {
        total_attempted_splits(responses.drop_last()) + responses.last().num_attempted_splits as nat
    }
}

/// The failed splits of `responses`, in the order of the responses.
pub open spec fn all_failed_splits(responses: Seq<LeafSearchResponse>) -> Seq<SplitSearchError>
    decreases responses.len(),
{
    if responses.len() == 0 {
        Seq::empty()
    } else {
        all_failed_splits(responses.drop_last()) + responses.last().failed_splits@
    }
}

/// The partial hits of `responses`, in the order of the responses.
pub open spec fn all_partial_hits(responses: Seq<LeafSearchResponse>) -> Seq<PartialHitView>
    decreases responses.len(),
{
    if responses.len() == 0 {
        Seq::empty()
    } else {
        all_partial_hits(responses.drop_last()) + hit_views(responses.last().partial_hits@)
    }
}

/// The serialized aggregation states that `responses` carry, in the order of
/// the responses; a response without one adds nothing.
pub open spec fn present_intermediates(responses: Seq<LeafSearchResponse>) -> Seq<Seq<u8>>
    decreases responses.len(),
{
    if responses.len() == 0 {
        Seq::empty()
    } else {
        let earlier = present_intermediates(responses.drop_last());
        match responses.last().intermediate_aggregation_result {
            Some(bytes) => earlier.push(bytes@),
            None => earlier,
        }
    }
}

} // verus!
