use crate::aggregation::{
    fruit_bytes, intermediate_aggregation_results, intermediates_fit, is_tantivy_merge,
    merge_tantivy_intermediates, QuickwitAggregations,
};
use crate::error::SearchError;
use crate::leaf_response::{
    all_failed_splits, all_partial_hits, present_intermediates, total_attempted_splits,
    total_num_hits, LeafSearchResponse, SplitSearchError,
};
use crate::partial_hit::{
    hit_le, hit_order, hit_views, lemma_hit_order_total, partial_hit_le, PartialHit,
    PartialHitView,
};
use crate::top_k::at_most;
use vstd::prelude::*;
use vstd::relations::{sorted_by, total_ordering};
use vstd::seq_lib::{
    lemma_multiset_commutative, lemma_sorted_unique, to_multiset_build, to_multiset_contains,
    to_multiset_len,
};

verus! {

/// The `limit` best of `hits`, from the best on.
pub open spec fn top_k_hits(hits: Seq<PartialHitView>, limit: nat) -> Seq<PartialHitView> {
    let sorted = hits.sort_by(hit_order());
    if limit <= sorted.len() {
        sorted.take(limit as int)
    } else {
        sorted
    }
}

/// The hits of `hits` past the first `start_offset`.
pub open spec fn past_offset<A>(hits: Seq<A>, start_offset: nat) -> Seq<A> {
    if start_offset <= hits.len() {
        hits.skip(start_offset as int)
    } else {
        Seq::empty()
    }
}

/// The hits kept by a merge are the best of the hits given: they come in
/// rank order, they are as many of the given hits as the limit allows, and
/// each hit kept ranks no later than each hit left out.
pub proof fn lemma_top_k_hits_are_the_best(hits: Seq<PartialHitView>, limit: nat)
    ensures
        sorted_by(top_k_hits(hits, limit), hit_order()),
        top_k_hits(hits, limit).len() == at_most(limit, hits.len()),
        top_k_hits(hits, limit).to_multiset().subset_of(hits.to_multiset()),
        forall|x: PartialHitView, y: PartialHitView|
            #![trigger top_k_hits(hits, limit).to_multiset().count(x), hits.to_multiset().count(y)]
            top_k_hits(hits, limit).to_multiset().count(x) > 0 && hits.to_multiset().count(y)
                > top_k_hits(hits, limit).to_multiset().count(y) ==> hit_le(x, y),
{
    broadcast use vstd::multiset::group_multiset_axioms;

    lemma_hit_order_total();
    hits.lemma_sort_by_ensures(hit_order());
    let sorted = hits.sort_by(hit_order());
    to_multiset_len(hits);
    to_multiset_len(sorted);
    let top = top_k_hits(hits, limit);
    let count = at_most(limit, hits.len()) as int;
    let rest = sorted.skip(count);
    assert(sorted =~= top + rest);
    lemma_multiset_commutative(top, rest);
    assert forall|x: PartialHitView, y: PartialHitView|
        top.to_multiset().count(x) > 0 && hits.to_multiset().count(y) > top.to_multiset().count(
            y,
        ) implies hit_le(x, y) by {
        to_multiset_contains(top, x);
        to_multiset_contains(rest, y);
        let i = choose|i: int| 0 <= i < top.len() && top[i] == x;
        let j = choose|j: int| 0 <= j < rest.len() && rest[j] == y;
        assert(hit_order()(sorted[i], sorted[count + j]));
    }
}

/// A merge does not depend on the order in which the hits are given: the
/// same hits in another order give the same result.
pub proof fn lemma_top_k_hits_ignore_order(
    hits: Seq<PartialHitView>,
    reordered: Seq<PartialHitView>,
    limit: nat,
)
    requires
        hits.to_multiset() == reordered.to_multiset(),
    ensures
        top_k_hits(hits, limit) == top_k_hits(reordered, limit),
{
    lemma_hit_order_total();
    hits.lemma_sort_by_ensures(hit_order());
    reordered.lemma_sort_by_ensures(hit_order());
    lemma_sorted_unique(hits.sort_by(hit_order()), reordered.sort_by(hit_order()), hit_order());
}

/// Where there are at least `start_offset` hits, a merge that keeps
/// `start_offset + max_hits` of them and then skips the offset drops exactly
/// the `start_offset` best hits: what remains follows them in rank order.
pub proof fn lemma_offset_drops_leading_hits(
    hits: Seq<PartialHitView>,
    start_offset: nat,
    max_hits: nat,
)
    requires
        start_offset <= hits.len(),
    ensures
        ({
            let top = top_k_hits(hits, start_offset + max_hits);
            let past = past_offset(top, start_offset);
            &&& start_offset == at_most(start_offset, start_offset + max_hits)
            &&& top == top.take(start_offset as int) + past
            &&& past.len() == top.len() - start_offset
        }),
{
    lemma_top_k_hits_are_the_best(hits, start_offset + max_hits);
}

/// `hits` runs from the hit that ranks last to the hit that ranks first.
spec fn descending(hits: Seq<PartialHitView>) -> bool {
    forall|i: int, j: int| 0 <= i < j < hits.len() ==> hit_le(#[trigger] hits[j], #[trigger] hits[i])
}

/// No hit of `later` ranks before a hit of `earlier`.
spec fn all_le(earlier: Seq<PartialHitView>, later: Seq<PartialHitView>) -> bool {
    forall|i: int, j: int|
        0 <= i < earlier.len() && 0 <= j < later.len() ==> hit_le(
            #[trigger] earlier[i],
            #[trigger] later[j],
        )
}

proof fn lemma_views_of_push(hits: Seq<PartialHit>, hit: PartialHit)
    ensures
        hit_views(hits.push(hit)) == hit_views(hits).push(hit@),
        hit_views(hits.push(hit)).to_multiset() == hit_views(hits).to_multiset().insert(hit@),
{
    assert(hit_views(hits.push(hit)) =~= hit_views(hits).push(hit@));
    to_multiset_build(hit_views(hits), hit@);
}

proof fn lemma_views_of_pop(hits: Seq<PartialHit>)
    requires
        hits.len() > 0,
    ensures
        hit_views(hits) == hit_views(hits.drop_last()).push(hits.last()@),
        hit_views(hits).to_multiset() == hit_views(hits.drop_last()).to_multiset().insert(
            hits.last()@,
        ),
{
    assert(hits =~= hits.drop_last().push(hits.last()));
    lemma_views_of_push(hits.drop_last(), hits.last());
}

/// Merges two vectors of hits, each in rank order, into one in rank order.
fn merge_ranked(left: Vec<PartialHit>, right: Vec<PartialHit>) -> (merged: Vec<PartialHit>)
    requires
        sorted_by(hit_views(left@), hit_order()),
        sorted_by(hit_views(right@), hit_order()),
    ensures
        sorted_by(hit_views(merged@), hit_order()),
        hit_views(merged@).to_multiset() == hit_views(left@).to_multiset().add(
            hit_views(right@).to_multiset(),
        ),
{
    broadcast use vstd::multiset::group_multiset_axioms;

    let ghost total = hit_views(left@).to_multiset().add(hit_views(right@).to_multiset());
    let mut left = left;
    let mut right = right;
    // The hits from the last in rank to the first.
    let mut backwards: Vec<PartialHit> = Vec::new();
    proof {
        lemma_hit_order_total();
        to_multiset_len(hit_views(backwards@));
    }
    while left.len() > 0 || right.len() > 0
        invariant
            total_ordering(hit_order()),
            sorted_by(hit_views(left@), hit_order()),
            sorted_by(hit_views(right@), hit_order()),
            descending(hit_views(backwards@)),
            all_le(hit_views(left@), hit_views(backwards@)),
            all_le(hit_views(right@), hit_views(backwards@)),
            hit_views(left@).to_multiset().add(hit_views(right@).to_multiset()).add(
                hit_views(backwards@).to_multiset(),
            ) == total,
        decreases left.len() + right.len(),
    {
        let from_left = if left.len() == 0 {
            false
        } else if right.len() == 0 {
            true
        } else {
            !partial_hit_le(&left[left.len() - 1], &right[right.len() - 1])
        };
        let ghost left_before = left@;
        let ghost right_before = right@;
        let ghost backwards_before = backwards@;
        let popped = if from_left {
            left.pop()
        } else {
            right.pop()
        };
        let hit = popped.unwrap();
        backwards.push(hit);
        proof {
            let left_views = hit_views(left_before);
            let right_views = hit_views(right_before);
            lemma_views_of_push(backwards_before, hit);
            if from_left {
                lemma_views_of_pop(left_before);
            } else {
                lemma_views_of_pop(right_before);
            }
            // Every hit still waiting ranks no later than the hit taken.
            assert forall|k: int| 0 <= k < left_views.len() implies hit_le(
                #[trigger] left_views[k],
                hit@,
            ) by {
                let last_left = left_views[left_views.len() - 1];
                assert(k < left_views.len() - 1 ==> hit_order()(left_views[k], last_left));
                if !from_left {
                    let last_right = right_views[right_views.len() - 1];
                    assert(hit_order()(left_views[k], last_left) && hit_order()(
                        last_left,
                        last_right,
                    ) ==> hit_order()(left_views[k], last_right));
                }
            }
            assert forall|k: int| 0 <= k < right_views.len() implies hit_le(
                #[trigger] right_views[k],
                hit@,
            ) by {
                let last_right = right_views[right_views.len() - 1];
                assert(k < right_views.len() - 1 ==> hit_order()(right_views[k], last_right));
                if from_left {
                    let last_left = left_views[left_views.len() - 1];
                    assert(hit_order()(last_right, last_left) || hit_order()(
                        last_left,
                        last_right,
                    ));
                }
            }
            let now = hit_views(backwards@);
            let before = hit_views(backwards_before);
            assert forall|i: int, j: int| 0 <= i < j < now.len() implies hit_le(
                #[trigger] now[j],
                #[trigger] now[i],
            ) by {
                if j == now.len() - 1 {
                    if from_left {
                        assert(hit_le(left_views[left_views.len() - 1], before[i]));
                    } else {
                        assert(hit_le(right_views[right_views.len() - 1], before[i]));
                    }
                }
            }
            assert forall|k: int, i: int|
                0 <= k < hit_views(left@).len() && 0 <= i < now.len() implies hit_le(
                #[trigger] hit_views(left@)[k],
                #[trigger] now[i],
            ) by {
                assert(hit_views(left@)[k] == left_views[k]);
                if i < before.len() {
                    assert(now[i] == before[i]);
                }
            }
            assert forall|k: int, i: int|
                0 <= k < hit_views(right@).len() && 0 <= i < now.len() implies hit_le(
                #[trigger] hit_views(right@)[k],
                #[trigger] now[i],
            ) by {
                assert(hit_views(right@)[k] == right_views[k]);
            }
            assert(sorted_by(hit_views(left@), hit_order())) by {
                assert forall|i: int, j: int| 0 <= i < j < hit_views(left@).len() implies #[trigger]
                    hit_order()(hit_views(left@)[i], hit_views(left@)[j]) by {
                    assert(hit_order()(left_views[i], left_views[j]));
                }
            }
            assert(sorted_by(hit_views(right@), hit_order())) by {
                assert forall|i: int, j: int| 0 <= i < j < hit_views(right@).len() implies #[trigger]
                    hit_order()(hit_views(right@)[i], hit_views(right@)[j]) by {
                    assert(hit_order()(right_views[i], right_views[j]));
                }
            }
        }
    }
    let mut merged: Vec<PartialHit> = Vec::new();
    proof {
        to_multiset_len(hit_views(left@));
        to_multiset_len(hit_views(right@));
    }
    while backwards.len() > 0
        invariant
            sorted_by(hit_views(merged@), hit_order()),
            descending(hit_views(backwards@)),
            all_le(hit_views(merged@), hit_views(backwards@)),
            hit_views(merged@).to_multiset().add(hit_views(backwards@).to_multiset()) == total,
        decreases backwards.len(),
    {
        let ghost backwards_before = backwards@;
        let ghost merged_before = merged@;
        let hit = backwards.pop().unwrap();
        merged.push(hit);
        proof {
            lemma_views_of_pop(backwards_before);
            lemma_views_of_push(merged_before, hit);
            let waiting = hit_views(backwards_before);
            let now = hit_views(merged@);
            let before = hit_views(merged_before);
            assert forall|i: int, j: int| 0 <= i < j < now.len() implies #[trigger] hit_order()(
                now[i],
                now[j],
            ) by {
                if j == now.len() - 1 {
                    assert(hit_le(before[i], waiting[waiting.len() - 1]));
                }
            }
            assert forall|i: int, j: int|
                0 <= i < now.len() && 0 <= j < hit_views(backwards@).len() implies hit_le(
                #[trigger] now[i],
                #[trigger] hit_views(backwards@)[j],
            ) by {
                if i >= before.len() {
                    assert(hit_le(waiting[waiting.len() - 1], waiting[j]));
                }
            }
            assert forall|i: int, j: int|
                0 <= i < j < hit_views(backwards@).len() implies hit_le(
                #[trigger] hit_views(backwards@)[j],
                #[trigger] hit_views(backwards@)[i],
            ) by {
                assert(hit_le(waiting[j], waiting[i]));
            }
        }
    }
    proof {
        to_multiset_len(hit_views(backwards@));
    }
    merged
}

/// Puts hits in rank order.
fn sort_partial_hits(hits: Vec<PartialHit>) -> (sorted: Vec<PartialHit>)
    ensures
        sorted_by(hit_views(sorted@), hit_order()),
        hit_views(sorted@).to_multiset() == hit_views(hits@).to_multiset(),
    decreases hits@.len(),
{
    let mut hits = hits;
    if hits.len() <= 1 {
        return hits;
    }
    let ghost given = hits@;
    let middle = hits.len() / 2;
    let second_half = hits.split_off(middle);
    proof {
        assert(hit_views(given) =~= hit_views(hits@) + hit_views(second_half@));
        lemma_multiset_commutative(hit_views(hits@), hit_views(second_half@));
    }
    let left = sort_partial_hits(hits);
    let right = sort_partial_hits(second_half);
    merge_ranked(left, right)
}

/// Sorts `partial_hits` from the best hit on and keeps the first `num_hits`.
pub fn top_k_partial_hits(partial_hits: Vec<PartialHit>, num_hits: usize) -> (top: Vec<PartialHit>)
    ensures
        hit_views(top@) == top_k_hits(hit_views(partial_hits@), num_hits as nat),
{
    let mut hits = sort_partial_hits(partial_hits);
    proof {
        let given = hit_views(partial_hits@);
        lemma_hit_order_total();
        given.lemma_sort_by_ensures(hit_order());
        lemma_sorted_unique(hit_views(hits@), given.sort_by(hit_order()), hit_order());
    }
    hits.truncate(num_hits);
    hits
}

proof fn lemma_totals_grow(responses: Seq<LeafSearchResponse>, count: int)
    requires
        0 <= count <= responses.len(),
    ensures
        total_num_hits(responses.take(count)) <= total_num_hits(responses),
        total_attempted_splits(responses.take(count)) <= total_attempted_splits(responses),
    decreases responses.len(),
{
    if count == responses.len() {
        assert(responses.take(count) =~= responses);
    } else {
        assert(responses.drop_last().take(count) =~= responses.take(count));
        lemma_totals_grow(responses.drop_last(), count);
    }
}

/// Merges the counters, failed splits and hits of `leaf_responses` into one
/// response that keeps the `max_hits` best hits and carries
/// `merged_intermediate_aggregation_result` as its aggregation state.
pub fn merge_leaf_responses_with(
    merged_intermediate_aggregation_result: Option<Vec<u8>>,
    leaf_responses: Vec<LeafSearchResponse>,
    max_hits: usize,
) -> (merged: LeafSearchResponse)
    requires
        total_num_hits(leaf_responses@) <= u64::MAX,
        total_attempted_splits(leaf_responses@) <= u64::MAX,
    ensures
        merged.intermediate_aggregation_result == merged_intermediate_aggregation_result,
        merged.num_hits == total_num_hits(leaf_responses@),
        merged.num_attempted_splits == total_attempted_splits(leaf_responses@),
        merged.failed_splits@ == all_failed_splits(leaf_responses@),
        hit_views(merged.partial_hits@) == top_k_hits(
            all_partial_hits(leaf_responses@),
            max_hits as nat,
        ),
{
    let mut num_hits: u64 = 0;
    let mut num_attempted_splits: u64 = 0;
    let mut failed_splits: Vec<SplitSearchError> = Vec::new();
    let mut gathered: Vec<PartialHit> = Vec::new();
    for leaf_response in iter: leaf_responses
        invariant
            total_num_hits(leaf_responses@) <= u64::MAX,
            total_attempted_splits(leaf_responses@) <= u64::MAX,
            num_hits == total_num_hits(leaf_responses@.take(iter.index() as int)),
            num_attempted_splits == total_attempted_splits(
                leaf_responses@.take(iter.index() as int),
            ),
            failed_splits@ == all_failed_splits(leaf_responses@.take(iter.index() as int)),
            hit_views(gathered@) == all_partial_hits(
                leaf_responses@.take(iter.index() as int),
            ),
    {
        let mut leaf_response = leaf_response;
        proof {
            let next = iter.index() + 1;
            assert(leaf_responses@.take(next).drop_last() =~= leaf_responses@.take(
                iter.index() as int,
            ));
            lemma_totals_grow(leaf_responses@, next);
        }
        num_hits = num_hits + leaf_response.num_hits;
        num_attempted_splits = num_attempted_splits + leaf_response.num_attempted_splits;
        failed_splits.append(&mut leaf_response.failed_splits);
        gathered.append(&mut leaf_response.partial_hits);
    }
    assert(leaf_responses@.take(leaf_responses@.len() as int) =~= leaf_responses@);
    let partial_hits = top_k_partial_hits(gathered, max_hits);
    LeafSearchResponse {
        intermediate_aggregation_result: merged_intermediate_aggregation_result,
        num_hits,
        partial_hits,
        failed_splits,
        num_attempted_splits,
    }
}

/// `merged` is what merging the serialized aggregation states `fruits` may
/// give. Without an aggregation, or without a state, there is nothing to
/// merge. The states of a trace-id finder go to `merge_trace_ids`, all at
/// once and in their order, and come back merged or with its refusal, which
/// becomes an internal error. The states of the index engine's aggregations
/// are read back and folded by the engine, the second and each later one
/// into the first, and the merged state is written as bytes; bytes that hold
/// no state, a fold that the engine refuses and a state that the encoding
/// refuses are errors.
pub open spec fn is_aggregation_merge<F: Fn(Vec<Vec<u8>>) -> Result<Vec<u8>, String>>(
    aggregations_opt: Option<QuickwitAggregations>,
    fruits: Seq<Seq<u8>>,
    merge_trace_ids: F,
    merged: Result<Option<Vec<u8>>, SearchError>,
) -> bool {
    match aggregations_opt {
        None => merged == Ok::<Option<Vec<u8>>, SearchError>(None),
        Some(aggregations) => if fruits.len() == 0 {
            merged == Ok::<Option<Vec<u8>>, SearchError>(None)
        } else {
            match aggregations {
                QuickwitAggregations::FindTraceIdsAggregation(_) => exists|
                    handed: Vec<Vec<u8>>,
                    outcome: Result<Vec<u8>, String>,
                |
                    fruit_bytes(handed@) == fruits && call_ensures(
                        merge_trace_ids,
                        (handed,),
                        outcome,
                    ) && merged == match outcome {
                        Ok(bytes) => Ok::<Option<Vec<u8>>, SearchError>(Some(bytes)),
                        Err(message) => Err::<Option<Vec<u8>>, SearchError>(
                            SearchError::Internal(message),
                        ),
                    },
                QuickwitAggregations::TantivyAggregations(_) => is_tantivy_merge(fruits, merged),
            }
        },
    }
}

/// The responses are responses for the aggregation given: where it is one of
/// the index engine, the states that they carry fit together.
pub open spec fn states_fit(
    aggregations_opt: Option<QuickwitAggregations>,
    leaf_responses: Seq<LeafSearchResponse>,
) -> bool {
    aggregations_opt matches Some(QuickwitAggregations::TantivyAggregations(_))
        ==> intermediates_fit(present_intermediates(leaf_responses))
}

/// Merges the serialized aggregation states that `leaf_responses` carry, in
/// the order of the responses. `merge_trace_ids` merges the fruits of a
/// trace-id finder; it is called only where the aggregation is one and there
/// is a state to merge. The states must be states of the aggregation given.
pub fn merge_intermediate_aggregation_results<F: Fn(Vec<Vec<u8>>) -> Result<Vec<u8>, String>>(
    aggregations_opt: &Option<QuickwitAggregations>,
    leaf_responses: &Vec<LeafSearchResponse>,
    merge_trace_ids: F,
) -> (merged: Result<Option<Vec<u8>>, SearchError>)
    requires
        forall|fruits: Vec<Vec<u8>>| call_requires(merge_trace_ids, (fruits,)),
        states_fit(*aggregations_opt, leaf_responses@),
    ensures
        is_aggregation_merge(
            *aggregations_opt,
            present_intermediates(leaf_responses@),
            merge_trace_ids,
            merged,
        ),
{
    match aggregations_opt {
        None => Ok(None),
        Some(aggregations) => {
            let fruits = intermediate_aggregation_results(leaf_responses);
            if fruits.len() == 0 {
                return Ok(None);
            }
            match aggregations {
                QuickwitAggregations::FindTraceIdsAggregation(_) => {
                    match merge_trace_ids(fruits) {
                        Ok(bytes) => Ok(Some(bytes)),
                        Err(message) => Err(SearchError::Internal(message)),
                    }
                },
                QuickwitAggregations::TantivyAggregations(_) => merge_tantivy_intermediates(
                    &fruits,
                ),
            }
        },
    }
}

/// `merged` holds the counters, the failed splits and the `max_hits` best
/// hits of `leaf_responses`.
pub open spec fn is_merge_of(
    merged: LeafSearchResponse,
    leaf_responses: Seq<LeafSearchResponse>,
    max_hits: nat,
) -> bool {
    &&& merged.num_hits == total_num_hits(leaf_responses)
    &&& merged.num_attempted_splits == total_attempted_splits(leaf_responses)
    &&& merged.failed_splits@ == all_failed_splits(leaf_responses)
    &&& hit_views(merged.partial_hits@) == top_k_hits(all_partial_hits(leaf_responses), max_hits)
}

/// The counters of `leaf_responses` can be summed.
pub open spec fn can_sum(leaf_responses: Seq<LeafSearchResponse>) -> bool {
    total_num_hits(leaf_responses) <= u64::MAX && total_attempted_splits(leaf_responses)
        <= u64::MAX
}

/// Merges a set of leaf results. A single result comes back as it is. Any
/// other number of results is merged: counters summed, failed splits
/// concatenated, the `max_hits` best hits kept, aggregation states merged.
/// The results must be results for the aggregation given.
pub fn merge_leaf_responses<F: Fn(Vec<Vec<u8>>) -> Result<Vec<u8>, String>>(
    aggregations_opt: &Option<QuickwitAggregations>,
    leaf_responses: Vec<LeafSearchResponse>,
    max_hits: usize,
    merge_trace_ids: F,
) -> (merged: Result<LeafSearchResponse, SearchError>)
    requires
        forall|fruits: Vec<Vec<u8>>| call_requires(merge_trace_ids, (fruits,)),
        leaf_responses@.len() != 1 ==> can_sum(leaf_responses@),
        leaf_responses@.len() != 1 ==> states_fit(*aggregations_opt, leaf_responses@),
    ensures
        leaf_responses@.len() == 1 ==> merged == Ok::<LeafSearchResponse, SearchError>(
            leaf_responses@[0],
        ),
        leaf_responses@.len() != 1 ==> is_aggregation_merge(
            *aggregations_opt,
            present_intermediates(leaf_responses@),
            merge_trace_ids,
            match merged {
                Ok(response) => Ok(response.intermediate_aggregation_result),
                Err(error) => Err(error),
            },
        ),
        leaf_responses@.len() != 1 ==> (merged matches Ok(response) ==> is_merge_of(
            response,
            leaf_responses@,
            max_hits as nat,
        )),
{
    let mut leaf_responses = leaf_responses;
    if leaf_responses.len() == 1 {
        let only = leaf_responses.pop();
        return Ok(only.unwrap());
    }
    let merged_intermediate_aggregation_result = match merge_intermediate_aggregation_results(
        aggregations_opt,
        &leaf_responses,
        merge_trace_ids,
    ) {
        Ok(state) => state,
        Err(error) => {
            return Err(error);
        },
    };
    Ok(merge_leaf_responses_with(merged_intermediate_aggregation_result, leaf_responses, max_hits))
}

} // verus!
