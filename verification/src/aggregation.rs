use crate::error::{LimitExceeded, SearchError};
use crate::field_names::name_set;
use crate::leaf_response::{present_intermediates, LeafSearchResponse};
use tantivy::aggregation::agg_req::{get_fast_field_names, Aggregation, Aggregations};
use tantivy::aggregation::intermediate_agg_result::IntermediateAggregationResults;
use tantivy::aggregation::{AggregationError, AggregationLimits, AggregationSegmentCollector};
use tantivy::collector::SegmentCollector;
use tantivy::{Score, TantivyError};
use vstd::prelude::*;
use vstd::string::StringExecFns;

verus! {

/// One aggregation of a request to the index engine. Opaque here.
#[verifier::external_type_specification]
#[verifier::external_body]
pub struct ExAggregation(Aggregation);

/// The mergeable state of the index engine's aggregations. Opaque here.
#[verifier::external_type_specification]
#[verifier::external_body]
pub struct ExIntermediateAggregationResults(IntermediateAggregationResults);

/// The index engine's aggregations at work on one segment. Opaque here.
#[verifier::external_type_specification]
#[verifier::external_body]
pub struct ExAggregationSegmentCollector(AggregationSegmentCollector);

/// The memory and bucket limits of the index engine's aggregations. Opaque
/// here: the library carries them from the caller to the caller.
#[verifier::external_type_specification]
#[verifier::external_body]
pub struct ExAggregationLimits(AggregationLimits);

/// The error type of the index engine. Opaque here.
#[verifier::external_type_specification]
#[verifier::external_body]
pub struct ExTantivyError(TantivyError);

/// The error type of the binary encoding. Opaque here.
#[verifier::external_type_specification]
#[verifier::external_body]
pub struct ExPostcardError(postcard::Error);

/// The error type of the JSON parser. Opaque here.
#[verifier::external_type_specification]
#[verifier::external_body]
pub struct ExJsonError(serde_json::Error);

/// The fast fields that the aggregations of a request read, sub-aggregations
/// included.
pub uninterp spec fn aggregation_fast_fields(aggregations: Aggregations) -> Set<Seq<char>>;

/// `get_fast_field_names` of the index engine: the names of the fast fields
/// that the aggregations of the request read, sub-aggregations included. The
/// engine returns them as a set; here they come as a list, in no particular
/// order.
#[verifier::external_body]
fn aggregation_fast_field_names(aggregations: &Aggregations) -> (names: Vec<String>)
    ensures
        name_set(names@) == aggregation_fast_fields(*aggregations),
{
    get_fast_field_names(aggregations).into_iter().collect()
}

/// The aggregations, by name, that the JSON parser reads from a text as a
/// request to the index engine; none where the parser refuses the text.
pub uninterp spec fn parsed_aggregations(json: Seq<char>) -> Option<Map<String, Aggregation>>;

/// `serde_json::from_str`, reading a request for the index engine's
/// aggregations. Whether the parser takes the text, and which aggregations
/// it reads from it under which names, depends on the text alone:
/// `parsed_aggregations` names that. Nothing is claimed of the error of a
/// refusal.
#[verifier::external_body]
fn parse_tantivy_aggregations(json: &str) -> (parsed: Result<Aggregations, serde_json::Error>)
    ensures
        match parsed {
            Ok(aggregations) => parsed_aggregations(json@) == Some(aggregations@),
            Err(_) => parsed_aggregations(json@) is None,
        },
{
    serde_json::from_str(json)
}

/// The aggregation state that the binary encoding reads back from `bytes`;
/// none where the bytes do not hold one.
pub uninterp spec fn decoded_intermediate(bytes: Seq<u8>) -> Option<
    IntermediateAggregationResults,
>;

/// `postcard::from_bytes`, reading an aggregation state back. Whether the
/// bytes hold a state, and which, depends on the bytes alone:
/// `decoded_intermediate` names that. Nothing is claimed of the error of a
/// refusal.
#[verifier::external_body]
fn decode_intermediate(bytes: &[u8]) -> (decoded: Result<
    IntermediateAggregationResults,
    postcard::Error,
>)
    ensures
        match decoded {
            Ok(fruit) => decoded_intermediate(bytes@) == Some(fruit),
            Err(_) => decoded_intermediate(bytes@) is None,
        },
{
    postcard::from_bytes(bytes)
}

/// The bytes that the binary encoding writes for an aggregation state; none
/// where the encoding refuses the state.
pub uninterp spec fn encoded_intermediate(fruit: IntermediateAggregationResults) -> Option<Seq<u8>>;

/// `postcard::to_allocvec`, writing an aggregation state as bytes. Whether
/// the encoding takes the state, and which bytes it writes, depends on the
/// state alone: `encoded_intermediate` names that. Nothing is claimed of the
/// error of a refusal.
#[verifier::external_body]
fn encode_intermediate(fruit: &IntermediateAggregationResults) -> (encoded: Result<
    Vec<u8>,
    postcard::Error,
>)
    ensures
        match encoded {
            Ok(bytes) => encoded_intermediate(*fruit) == Some(bytes@),
            Err(_) => encoded_intermediate(*fruit) is None,
        },
{
    postcard::to_allocvec(fruit)
}

/// What the index engine gives when it folds the state `next` into the state
/// `merged`: the merged state, or the engine's error. The engine has a result
/// only for states that fit, that is, states that hold results of the same
/// kinds, pair by pair, as the states of one request do; for states that do
/// not fit there is none.
pub uninterp spec fn merged_intermediate(
    merged: IntermediateAggregationResults,
    next: IntermediateAggregationResults,
) -> Option<Result<IntermediateAggregationResults, TantivyError>>;

/// `IntermediateAggregationResults::merge_fruits`: folds `next` into
/// `merged`. The engine pairs the results of the two states and panics on a
/// pair of different kinds, so the states must fit. What comes out depends on
/// the two states alone: `merged_intermediate` names it.
#[verifier::external_body]
fn merge_intermediate(
    merged: IntermediateAggregationResults,
    next: IntermediateAggregationResults,
) -> (outcome: Result<IntermediateAggregationResults, TantivyError>)
    requires
        merged_intermediate(merged, next) is Some,
    ensures
        merged_intermediate(merged, next) == Some(outcome),
{
    let mut merged = merged;
    match merged.merge_fruits(next) {
        Ok(()) => Ok(merged),
        Err(error) => Err(error),
    }
}

/// The number of documents of the segment that the aggregations were set up
/// on.
pub uninterp spec fn aggregation_num_docs(collector: AggregationSegmentCollector) -> nat;

/// The documents that the aggregations have taken: those that the collector
/// was handed while it held no error, in the order in which they came, each
/// with the bit pattern of the score that came with it.
pub uninterp spec fn aggregation_collected(collector: AggregationSegmentCollector) -> Seq<
    (u32, u32),
>;

/// Whether the collector holds an error: one of its aggregations has failed
/// on a document, and the collector takes no more.
pub uninterp spec fn aggregation_has_failed(collector: AggregationSegmentCollector) -> bool;

/// `AggregationSegmentCollector::collect`: takes the document `doc_id` into
/// the aggregations of a segment; `score_bits` is the bit pattern of its
/// score. The document must be one of the segment that the collector was set
/// up on: the collector looks it up in the columns of that segment. A
/// collector that holds an error passes the document over and stays as it
/// is; any other takes the document, and may come to hold an error over it.
/// The collector stays on its segment.
#[verifier::external_body]
fn aggregation_collect(collector: &mut AggregationSegmentCollector, doc_id: u32, score_bits: u32)
    requires
        doc_id < aggregation_num_docs(*old(collector)),
    ensures
        aggregation_num_docs(*final(collector)) == aggregation_num_docs(*old(collector)),
        aggregation_has_failed(*old(collector)) ==> aggregation_has_failed(*final(collector))
            && aggregation_collected(*final(collector)) == aggregation_collected(*old(collector)),
        !aggregation_has_failed(*old(collector)) ==> aggregation_collected(*final(collector))
            == aggregation_collected(*old(collector)).push((doc_id, score_bits)),
{
    collector.collect(doc_id, Score::from_bits(score_bits))
}

/// `AggregationSegmentCollector::harvest`: ends the aggregations of a
/// segment. A collector that holds an error gives that error. Nothing else
/// is claimed of the outcome: it depends on the memory that the collectors
/// of a request use together.
#[verifier::external_body]
fn aggregation_harvest(collector: AggregationSegmentCollector) -> (harvested: Result<
    IntermediateAggregationResults,
    TantivyError,
>)
    ensures
        aggregation_has_failed(collector) ==> harvested is Err,
{
    collector.harvest()
}

/// `AggregationLimits::clone`: limits that count the memory in use together
/// with the limits they were cloned from. Nothing is claimed of them here.
pub assume_specification[ <AggregationLimits as Clone>::clone ](
    limits: &AggregationLimits,
) -> AggregationLimits;

/// The limit that an error of the index engine says was exceeded, with the
/// numbers that the error holds; none for an error that is no limit error.
pub uninterp spec fn limit_refusal(error: TantivyError) -> Option<LimitExceeded>;

/// Tells the two limit errors of the index engine from its other errors: a
/// `TantivyError::AggregationError` that holds `AggregationError::MemoryExceeded`
/// or `AggregationError::BucketLimitExceeded` gives that limit, with the two
/// numbers of the error; any other error gives none. `limit_refusal` names
/// that.
#[verifier::external_body]
fn limit_error(error: &TantivyError) -> (limit: Option<LimitExceeded>)
    ensures
        limit == limit_refusal(*error),
{
    match error {
        TantivyError::AggregationError(AggregationError::MemoryExceeded { limit, current }) => {
            Some(LimitExceeded::Memory { limit: limit.get_bytes(), current: current.get_bytes() })
        },
        TantivyError::AggregationError(AggregationError::BucketLimitExceeded { limit, current }) => {
            Some(LimitExceeded::Buckets { limit: *limit, current: *current })
        },
        _ => None,
    }
}

/// What `limits` were made with: the memory, in bytes, that the aggregations
/// of a request may use, and the number of buckets that an aggregation may
/// return.
pub uninterp spec fn aggregation_limit_values(limits: AggregationLimits) -> (u64, u32);

/// `AggregationLimits::new`: limits of `memory_limit` bytes and
/// `bucket_limit` buckets, with a fresh count of the memory in use.
#[verifier::external_body]
pub(crate) fn new_aggregation_limits(memory_limit: u64, bucket_limit: u32) -> (limits:
    AggregationLimits)
    ensures
        aggregation_limit_values(limits) == (memory_limit, bucket_limit),
{
    AggregationLimits::new(Some(memory_limit), Some(bucket_limit))
}

/// What this library knows of a trace-id finder: the fast fields that it
/// reads. The finder itself runs beside the collector; its fruits pass
/// through the library as bytes.
#[derive(Clone, Debug)]
pub struct FindTraceIdsCollector {
    pub fast_field_names: Vec<String>,
}

/// Available aggregation types.
#[derive(Clone, Debug)]
pub enum QuickwitAggregations {
    /// Finds the ids of the traces that match a query.
    FindTraceIdsAggregation(FindTraceIdsCollector),
    /// The bucket and metric aggregations of the index engine.
    TantivyAggregations(Aggregations),
}

/// The two families of aggregations.
#[derive(Clone, Copy, Debug, PartialEq, Eq, Structural)]
pub enum AggregationFamily {
    /// Trace-id finders.
    FindTraceIds,
    /// The bucket and metric aggregations of the index engine.
    Tantivy,
}

/// The aggregation of a collector at work on one segment.
pub enum AggregationSegmentCollectors {
    /// A trace-id finder. It runs beside the segment collector, which tells
    /// it which documents count and takes its fruit at the end.
    FindTraceIdsSegmentCollector,
    /// The aggregations of the index engine.
    TantivyAggregationSegmentCollector(AggregationSegmentCollector),
}

/// What the aggregation of a segment collector stands for.
pub enum AggregationView {
    /// A trace-id finder beside the collector.
    FindTraceIds,
    /// The aggregations of the index engine: the documents they have taken,
    /// each with the bit pattern of its score, and whether they have failed.
    Tantivy { collected: Seq<(u32, u32)>, failed: bool },
}

impl View for AggregationSegmentCollectors {
    type V = AggregationView;

    open spec fn view(&self) -> AggregationView {
        match self {
            AggregationSegmentCollectors::FindTraceIdsSegmentCollector => AggregationView::FindTraceIds,
            AggregationSegmentCollectors::TantivyAggregationSegmentCollector(collector) => {
                AggregationView::Tantivy {
                    collected: aggregation_collected(*collector),
                    failed: aggregation_has_failed(*collector),
                }
            },
        }
    }
}

impl AggregationView {
    /// The family of the aggregation.
    pub open spec fn family(self) -> AggregationFamily {
        match self {
            AggregationView::FindTraceIds => AggregationFamily::FindTraceIds,
            AggregationView::Tantivy { .. } => AggregationFamily::Tantivy,
        }
    }

    /// `after` is this aggregation once it was handed the document `doc_id`
    /// with the score `score_bits`. A trace-id finder runs beside the
    /// collector: here nothing changes for it. The aggregations of the index
    /// engine take the document, and may fail over it; once they have failed
    /// they take no more and stay as they are.
    pub open spec fn is_after_collect(self, doc_id: u32, score_bits: u32, after: AggregationView) -> bool {
        match self {
            AggregationView::FindTraceIds => after == self,
            AggregationView::Tantivy { collected, failed } => if failed {
                after == self
            } else {
                after matches AggregationView::Tantivy { collected: taken, .. } && taken
                    == collected.push((doc_id, score_bits))
            },
        }
    }
}

/// `error` stands for the error `refusal` of the index engine: a limit error
/// keeps its kind, any other is internal; the message is the engine's.
pub open spec fn is_tantivy_refusal(error: SearchError, refusal: TantivyError) -> bool {
    match limit_refusal(refusal) {
        Some(exceeded) => error matches SearchError::AggregationLimitExceeded { message, limit }
            && limit == exceeded && vstd::string::to_string_from_display_ensures::<TantivyError>(
            &refusal,
            message,
        ),
        None => error matches SearchError::Internal(message)
            && vstd::string::to_string_from_display_ensures::<TantivyError>(&refusal, message),
    }
}

/// `state` is what ending the aggregation `aggregation` gives when
/// `find_trace_ids_fruit` is the fruit of the trace-id finder beside the
/// collector. A finder's state is its fruit. The aggregations of the index
/// engine give the bytes that the encoding writes for the state they end in,
/// or the engine's or the encoding's refusal; once they have failed they give
/// the engine's refusal.
pub open spec fn is_harvest_of(
    aggregation: AggregationView,
    find_trace_ids_fruit: Option<Vec<u8>>,
    state: Result<Option<Vec<u8>>, SearchError>,
) -> bool {
    match aggregation {
        AggregationView::FindTraceIds => state == Ok::<Option<Vec<u8>>, SearchError>(
            find_trace_ids_fruit,
        ),
        AggregationView::Tantivy { failed, .. } => match state {
            Ok(Some(bytes)) => !failed && exists|fruit: IntermediateAggregationResults|
                encoded_intermediate(fruit) == Some(bytes@),
            Ok(None) => false,
            Err(error) => is_postcard_refusal(error) || exists|refusal: TantivyError|
                is_tantivy_refusal(error, refusal),
        },
    }
}

impl AggregationSegmentCollectors {
    /// The family of the aggregation.
    pub open spec fn family(&self) -> AggregationFamily {
        self@.family()
    }

    /// The aggregation takes every document below `max_doc`: the
    /// aggregations of the index engine were set up on a segment that holds
    /// these documents.
    pub open spec fn covers(&self, max_doc: u32) -> bool {
        match self {
            AggregationSegmentCollectors::FindTraceIdsSegmentCollector => true,
            AggregationSegmentCollectors::TantivyAggregationSegmentCollector(collector) => max_doc
                <= aggregation_num_docs(*collector),
        }
    }

    /// Takes a document that counts into the aggregation: the aggregations
    /// of the index engine are handed the document with its score; a
    /// trace-id finder runs beside the collector, so that here nothing
    /// changes for it.
    pub fn collect(&mut self, doc_id: u32, score_bits: u32)
        requires
            exists|max_doc: u32| doc_id < max_doc && old(self).covers(max_doc),
        ensures
            old(self)@.is_after_collect(doc_id, score_bits, final(self)@),
            forall|max_doc: u32| old(self).covers(max_doc) ==> final(self).covers(max_doc),
    {
        match self {
            AggregationSegmentCollectors::FindTraceIdsSegmentCollector => {},
            AggregationSegmentCollectors::TantivyAggregationSegmentCollector(collector) => {
                aggregation_collect(collector, doc_id, score_bits)
            },
        }
    }

    /// Ends the aggregation and gives its state in serialized form.
    /// `find_trace_ids_fruit` is the serialized fruit of the trace-id finder
    /// that ran beside the collector; it is the state where the aggregation
    /// is a trace-id finder, which always has a fruit. The aggregations of
    /// the index engine give their own state, or the error that stopped
    /// them.
    pub fn harvest(self, find_trace_ids_fruit: Option<Vec<u8>>) -> (state: Result<
        Option<Vec<u8>>,
        SearchError,
    >)
        requires
            self is FindTraceIdsSegmentCollector ==> find_trace_ids_fruit is Some,
        ensures
            is_harvest_of(self@, find_trace_ids_fruit, state),
            state matches Ok(bytes) ==> bytes is Some,
    {
        match self {
            AggregationSegmentCollectors::FindTraceIdsSegmentCollector => Ok(find_trace_ids_fruit),
            AggregationSegmentCollectors::TantivyAggregationSegmentCollector(collector) => {
                match aggregation_harvest(collector) {
                    Ok(fruit) => harvested_state(&fruit),
                    Err(error) => Err(search_error_from_tantivy(&error)),
                }
            },
        }
    }
}

/// The serialized form of the state that the aggregations of the index
/// engine ended in: the bytes that the encoding writes for it, or the
/// encoding's refusal.
pub fn harvested_state(fruit: &IntermediateAggregationResults) -> (state: Result<
    Option<Vec<u8>>,
    SearchError,
>)
    ensures
        match encoded_intermediate(*fruit) {
            Some(bytes) => state matches Ok(Some(written)) && written@ == bytes,
            None => state matches Err(error) && is_postcard_refusal(error),
        },
{
    match serialize_intermediate(fruit) {
        Ok(bytes) => Ok(Some(bytes)),
        Err(error) => Err(error),
    }
}

impl QuickwitAggregations {
    /// The family of the aggregation.
    pub open spec fn family(&self) -> AggregationFamily {
        match self {
            QuickwitAggregations::FindTraceIdsAggregation(_) => AggregationFamily::FindTraceIds,
            QuickwitAggregations::TantivyAggregations(_) => AggregationFamily::Tantivy,
        }
    }

    /// The fast fields that the aggregation reads.
    pub open spec fn spec_fast_field_names(&self) -> Set<Seq<char>> {
        match self {
            QuickwitAggregations::FindTraceIdsAggregation(collector) => name_set(
                collector.fast_field_names@,
            ),
            QuickwitAggregations::TantivyAggregations(aggregations) => aggregation_fast_fields(
                *aggregations,
            ),
        }
    }

    /// The names of the fast fields that the aggregation reads. A name may
    /// occur more than once.
    pub fn fast_field_names(&self) -> (names: Vec<String>)
        ensures
            name_set(names@) == self.spec_fast_field_names(),
    {
        match self {
            QuickwitAggregations::FindTraceIdsAggregation(collector) => {
                collector.fast_field_names.clone()
            },
            QuickwitAggregations::TantivyAggregations(aggregations) => {
                aggregation_fast_field_names(aggregations)
            },
        }
    }
}

/// The error of this library that stands for an error of the index engine:
/// its limit errors keep their kind, all others are internal; the message is
/// the engine's.
pub fn search_error_from_tantivy(error: &TantivyError) -> (mapped: SearchError)
    ensures
        is_tantivy_refusal(mapped, *error),
{
    match limit_error(error) {
        Some(limit) => SearchError::AggregationLimitExceeded { message: error.to_string(), limit },
        None => SearchError::Internal(error.to_string()),
    }
}

/// The error of this library that stands for a refusal of the JSON parser:
/// an invalid argument whose message is the parser's.
pub fn invalid_argument_from_json(error: &serde_json::Error) -> (mapped: SearchError)
    ensures
        mapped matches SearchError::InvalidArgument(message)
            && vstd::string::to_string_from_display_ensures::<serde_json::Error>(error, message),
{
    SearchError::InvalidArgument(error.to_string())
}

/// What the message of an internal error begins with where the binary
/// encoding has refused.
pub open spec fn postcard_refusal_prefix() -> Seq<char> {
    "Merge Result Postcard Error: "@
}

/// `error` is the internal error that stands for the refusal `refusal` of
/// the binary encoding: its message is the prefix and then the encoding's
/// text.
pub open spec fn is_postcard_refusal_of(error: SearchError, refusal: postcard::Error) -> bool {
    error matches SearchError::Internal(message) && exists|text: String|
        vstd::string::to_string_from_display_ensures::<postcard::Error>(&refusal, text)
            && message@ == postcard_refusal_prefix() + text@
}

/// The error of this library that stands for a refusal of the binary
/// encoding: an internal error whose message is the encoding's, after a
/// prefix.
pub fn internal_error_from_postcard(error: &postcard::Error) -> (mapped: SearchError)
    ensures
        is_postcard_refusal_of(mapped, *error),
{
    let text = error.to_string();
    let message = "Merge Result Postcard Error: ".to_owned().concat(text.as_str());
    SearchError::Internal(message)
}

/// `error` is an invalid argument that carries the message of a refusal of
/// the JSON parser.
pub open spec fn is_json_refusal(error: SearchError) -> bool {
    error matches SearchError::InvalidArgument(message) && exists|refusal: serde_json::Error|
        vstd::string::to_string_from_display_ensures::<serde_json::Error>(&refusal, message)
}

/// `error` is an internal error that stands for a refusal of the binary
/// encoding.
pub open spec fn is_postcard_refusal(error: SearchError) -> bool {
    exists|refusal: postcard::Error| is_postcard_refusal_of(error, refusal)
}

/// Reads an aggregation request of the index engine from its JSON text: the
/// aggregations that the parser reads from the text, under their names; a
/// text that the parser refuses is an invalid argument, with the parser's
/// message.
pub fn parse_aggregations(json: &str) -> (parsed: Result<Aggregations, SearchError>)
    ensures
        match parsed_aggregations(json@) {
            Some(read) => parsed matches Ok(aggregations) && aggregations@ == read,
            None => parsed matches Err(error) && is_json_refusal(error),
        },
{
    match parse_tantivy_aggregations(json) {
        Ok(aggregations) => Ok(aggregations),
        Err(error) => Err(invalid_argument_from_json(&error)),
    }
}

/// Writes an aggregation state of the index engine as bytes: the bytes that
/// the binary encoding writes for it; a state that the encoding refuses is
/// an internal error, with the encoding's message.
pub fn serialize_intermediate(fruit: &IntermediateAggregationResults) -> (serialized: Result<
    Vec<u8>,
    SearchError,
>)
    ensures
        match encoded_intermediate(*fruit) {
            Some(bytes) => serialized matches Ok(written) && written@ == bytes,
            None => serialized matches Err(error) && is_postcard_refusal(error),
        },
{
    match encode_intermediate(fruit) {
        Ok(bytes) => Ok(bytes),
        Err(error) => Err(internal_error_from_postcard(&error)),
    }
}

/// Reads an aggregation state of the index engine back from bytes: the state
/// that the binary encoding reads from them; bytes that hold no state are an
/// internal error, with the encoding's message.
pub fn deserialize_intermediate(bytes: &[u8]) -> (fruit: Result<
    IntermediateAggregationResults,
    SearchError,
>)
    ensures
        match decoded_intermediate(bytes@) {
            Some(state) => fruit == Ok::<IntermediateAggregationResults, SearchError>(state),
            None => fruit matches Err(error) && is_postcard_refusal(error),
        },
{
    match decode_intermediate(bytes) {
        Ok(fruit) => Ok(fruit),
        Err(error) => Err(internal_error_from_postcard(&error)),
    }
}

/// The bytes that each vector of `fruits` holds.
pub open spec fn fruit_bytes(fruits: Seq<Vec<u8>>) -> Seq<Seq<u8>> {
    fruits.map_values(|fruit: Vec<u8>| fruit@)
}

/// The serialized aggregation states that `leaf_responses` carry, in the
/// order of the responses.
pub fn intermediate_aggregation_results(leaf_responses: &Vec<LeafSearchResponse>) -> (fruits: Vec<
    Vec<u8>,
>)
    ensures
        fruit_bytes(fruits@) == present_intermediates(leaf_responses@),
{
    let mut fruits: Vec<Vec<u8>> = Vec::new();
    let mut i: usize = 0;
    while i < leaf_responses.len()
        invariant
            i <= leaf_responses.len(),
            fruit_bytes(fruits@) == present_intermediates(leaf_responses@.take(i as int)),
        decreases leaf_responses.len() - i,
    {
        assert(leaf_responses@.take(i + 1).drop_last() =~= leaf_responses@.take(i as int));
        match &leaf_responses[i].intermediate_aggregation_result {
            Some(bytes) => {
                let copy = bytes.clone();
                fruits.push(copy);
            },
            None => {},
        }
        i += 1;
    }
    assert(leaf_responses@.take(leaf_responses@.len() as int) =~= leaf_responses@);
    fruits
}

/// Each of `fruits` holds an aggregation state.
pub open spec fn all_decode(fruits: Seq<Seq<u8>>) -> bool {
    forall|k: int| 0 <= k < fruits.len() ==> decoded_intermediate(#[trigger] fruits[k]) is Some
}

/// The states that `fruits` hold, in their order.
pub open spec fn decoded_states(fruits: Seq<Seq<u8>>) -> Seq<IntermediateAggregationResults> {
    Seq::new(fruits.len(), |k: int| decoded_intermediate(fruits[k])->Some_0)
}

/// What the index engine gives when the states of `rest` are folded into
/// `first`, one after the other: the merged state, or the error at which the
/// engine stopped; nothing where two states that met did not fit.
pub open spec fn folded_intermediates(
    first: IntermediateAggregationResults,
    rest: Seq<IntermediateAggregationResults>,
) -> Option<Result<IntermediateAggregationResults, TantivyError>>
    decreases rest.len(),
{
    if rest.len() == 0 {
        Some(Ok(first))
    } else {
        match folded_intermediates(first, rest.drop_last()) {
            Some(Ok(merged)) => merged_intermediate(merged, rest.last()),
            stopped => stopped,
        }
    }
}

/// The states that `fruits` hold fit together: the index engine can fold
/// them, the second and each later one into the first. The states of one
/// request do.
pub open spec fn intermediates_fit(fruits: Seq<Seq<u8>>) -> bool {
    all_decode(fruits) && fruits.len() > 0 ==> folded_intermediates(
        decoded_states(fruits)[0],
        decoded_states(fruits).skip(1),
    ) is Some
}

/// `merged` is what merging the serialized states `fruits` gives. Nothing to
/// merge gives nothing. Bytes that hold no state are refused before anything
/// is merged. Else the states are folded, the second and each later one into
/// the first, in their order, and the result is the bytes that the encoding
/// writes for the merged state, or the engine's refusal of the fold, or the
/// encoding's refusal of the merged state.
pub open spec fn is_tantivy_merge(
    fruits: Seq<Seq<u8>>,
    merged: Result<Option<Vec<u8>>, SearchError>,
) -> bool {
    if fruits.len() == 0 {
        merged == Ok::<Option<Vec<u8>>, SearchError>(None)
    } else if !all_decode(fruits) {
        merged matches Err(error) && is_postcard_refusal(error)
    } else {
        match folded_intermediates(decoded_states(fruits)[0], decoded_states(fruits).skip(1)) {
            Some(Ok(state)) => match encoded_intermediate(state) {
                Some(bytes) => merged matches Ok(Some(written)) && written@ == bytes,
                None => merged matches Err(error) && is_postcard_refusal(error),
            },
            Some(Err(refusal)) => merged matches Err(error) && is_tantivy_refusal(error, refusal),
            None => true,
        }
    }
}

proof fn lemma_fold_of_prefix(
    first: IntermediateAggregationResults,
    rest: Seq<IntermediateAggregationResults>,
    count: int,
)
    requires
        0 <= count <= rest.len(),
        folded_intermediates(first, rest) is Some,
    ensures
        folded_intermediates(first, rest.take(count)) is Some,
        folded_intermediates(first, rest.take(count)) is Some && folded_intermediates(
            first,
            rest.take(count),
        )->Some_0 is Err ==> folded_intermediates(first, rest) == folded_intermediates(
            first,
            rest.take(count),
        ),
    decreases rest.len() - count,
{
    if count == rest.len() {
        assert(rest.take(count) =~= rest);
    } else {
        assert(rest.drop_last().take(count) =~= rest.take(count));
        lemma_fold_of_prefix(first, rest.drop_last(), count);
    }
}

/// Merges serialized aggregation states of the index engine: reads them all
/// back, folds the second and each later one into the first, in this order,
/// and serializes what comes out. Nothing to merge gives nothing. Bytes that
/// hold no state are refused before anything is merged. The states must fit
/// together, as the states of one request do.
pub fn merge_tantivy_intermediates(fruits: &Vec<Vec<u8>>) -> (merged: Result<
    Option<Vec<u8>>,
    SearchError,
>)
    requires
        intermediates_fit(fruit_bytes(fruits@)),
    ensures
        is_tantivy_merge(fruit_bytes(fruits@), merged),
{
    let ghost given = fruit_bytes(fruits@);
    let mut decoded: Vec<IntermediateAggregationResults> = Vec::new();
    let mut i: usize = 0;
    while i < fruits.len()
        invariant
            i <= fruits.len(),
            decoded@.len() == i,
            given == fruit_bytes(fruits@),
            forall|k: int|
                0 <= k < i ==> decoded_intermediate(#[trigger] given[k]) == Some(decoded@[k]),
        decreases fruits.len() - i,
    {
        assert(given[i as int] == fruits@[i as int]@);
        match deserialize_intermediate(fruits[i].as_slice()) {
            Ok(fruit) => decoded.push(fruit),
            Err(error) => {
                return Err(error);
            },
        }
        i += 1;
    }
    let ghost states = decoded@;
    proof {
        assert(states =~= decoded_states(given));
    }
    let mut merged_fruit: Option<IntermediateAggregationResults> = None;
    for fruit in iter: decoded
        invariant
            states == decoded@,
            given == fruit_bytes(fruits@),
            states.len() == given.len(),
            all_decode(given),
            states == decoded_states(given),
            intermediates_fit(given),
            iter.index() == 0 ==> merged_fruit is None,
            iter.index() > 0 ==> (merged_fruit matches Some(merged) && folded_intermediates(
                states[0],
                states.skip(1).take(iter.index() - 1),
            ) == Some(Ok::<IntermediateAggregationResults, TantivyError>(merged))),
    {
        let ghost rest = states.skip(1);
        let ghost done = iter.index() - 1;
        merged_fruit =
        match merged_fruit {
            None => {
                assert(rest.take(0) =~= Seq::empty());
                Some(fruit)
            },
            Some(merged) => {
                proof {
                    lemma_fold_of_prefix(states[0], rest, done + 1);
                    assert(rest.take(done + 1).drop_last() =~= rest.take(done));
                    assert(rest.take(done + 1).last() == fruit);
                }
                match merge_intermediate(merged, fruit) {
                    Ok(merged) => Some(merged),
                    Err(error) => {
                        assert(folded_intermediates(states[0], rest.take(done + 1)) == Some(
                            Err::<IntermediateAggregationResults, TantivyError>(error),
                        ));
                        return Err(search_error_from_tantivy(&error));
                    },
                }
            },
        };
    }
    match merged_fruit {
        Some(merged) => {
            proof {
                let rest = states.skip(1);
                assert(rest.take(states.len() - 1) =~= rest);
            }
            harvested_state(&merged)
        },
        None => Ok(None),
    }
}

} // verus!
