//! What a query asks the planner for.
use vstd::prelude::*;

use vstd::utf8::encode_utf8;

use crate::error::OpError;
use crate::query::{
    admits_text, explains_predicates, filter_outcome, filter_walk, is_outcome, maps_executor_error,
    maps_plan_error, plans_query, selects_retrievers, FilterEntry, FilterOutcome, PlanError,
    PlannerQueryRequest, PredicateResolution, Retriever, RetrieverSelection,
    RetrieverSelectionWire, RetrieverWire, WireQueryRequest,
};
use crate::recall::RecallRequest;
use crate::retrieval::{
    maps_execution_error, maps_recall_plan_error, plans_recall, switches_autocut, ExecutionError,
};


verus! {

/// A query has at most sixteen kibibytes of text.
pub proof fn query_texts_are_bounded(r: Result<(), OpError>, text: Seq<char>)
    requires
        admits_text(r, text),
    ensures
        r is Ok <==> encode_utf8(text).len() <= 16 * 1024,
        r matches Err(e) ==> e is InvalidRequest,
{
}

/// Whether a predicate of a filter is a full name that is known.
pub open spec fn is_known(e: FilterEntry) -> bool {
    e.qname@.contains(':') && e.lookup.found is Some
}

proof fn walks_of_known_names_resolve(entries: Seq<FilterEntry>)
    ensures
        (forall|i: int| 0 <= i < entries.len() ==> is_known(#[trigger] entries[i])) <==> (
        filter_walk(entries) is Resolved),
        filter_walk(entries) matches FilterOutcome::Resolved(ids) ==> ids.len() == entries.len()
            && forall|i: int|
            0 <= i < entries.len() ==> Some(ids[i]) == (#[trigger] entries[i]).lookup.found,
        filter_walk(entries) is EmptyResultSet ==> exists|i: int|
            0 <= i < entries.len() && (#[trigger] entries[i]).lookup.found is None
                && entries[i].lookup.active_version is None,
    decreases entries.len(),
{
    if entries.len() > 0 {
        let front = entries.drop_last();
        walks_of_known_names_resolve(front);
        assert(entries.last() == entries[entries.len() - 1]);
        assert forall|i: int| 0 <= i < front.len() implies front[i] == #[trigger] entries[i] by {}
        if forall|i: int| 0 <= i < entries.len() ==> is_known(#[trigger] entries[i]) {
            assert forall|i: int| 0 <= i < front.len() implies is_known(#[trigger] front[i]) by {
                assert(is_known(entries[i]));
            }
            assert(is_known(entries.last()));
        }
        if filter_walk(entries) is Resolved {
            assert(filter_walk(front) is Resolved);
            assert forall|i: int| 0 <= i < entries.len() implies is_known(#[trigger] entries[i]) by {
                if i < front.len() {
                    assert(is_known(front[i]));
                }
            }
            let ids = filter_walk(entries)->Resolved_0;
            let before = filter_walk(front)->Resolved_0;
            assert forall|i: int| 0 <= i < entries.len() implies Some(ids[i]) == (
            #[trigger] entries[i]).lookup.found by {
                if i < front.len() {
                    assert(ids[i] == before[i]);
                    assert(Some(before[i]) == front[i].lookup.found);
                }
            }
        }
        if filter_walk(entries) is EmptyResultSet {
            if filter_walk(front) is EmptyResultSet {
                let i = choose|i: int|
                    0 <= i < front.len() && (#[trigger] front[i]).lookup.found is None
                        && front[i].lookup.active_version is None;
                assert(entries[i] == front[i]);
            } else {
                assert(entries[entries.len() - 1].lookup.found is None);
            }
        }
    }
}

/// A predicate filter stands for the predicates that it names, in order; one
/// name that is not known leaves nothing to search, or fails under a schema.
pub proof fn predicate_filters_name_their_predicates(
    r: Result<PredicateResolution, OpError>,
    entries: Seq<FilterEntry>,
    i: int,
)
    requires
        is_outcome(r, filter_outcome(entries)),
    ensures
        r matches Ok(PredicateResolution::Resolved(ids)) ==> ids@.len() == entries.len() && (0 <= i
            < entries.len() ==> Some(ids@[i]) == entries[i].lookup.found),
        (r matches Ok(x) && x is Resolved) <==> entries.len() <= 256 && forall|k: int|
            0 <= k < entries.len() ==> is_known(#[trigger] entries[k]),
        r matches Ok(PredicateResolution::EmptyResultSet) ==> exists|k: int|
            0 <= k < entries.len() && (#[trigger] entries[k]).lookup.found is None
                && entries[k].lookup.active_version is None,
        entries.len() > 256 ==> r is Err,
{
    walks_of_known_names_resolve(entries);
    if let Ok(PredicateResolution::Resolved(ids)) = r {
        if 0 <= i < entries.len() {
            assert(Some(ids@[i]) == entries[i].lookup.found);
        }
    }
}

/// An explanation names the predicates that a filter stands for.
pub proof fn explanations_name_the_predicates(v: Vec<u32>, r: PredicateResolution)
    requires
        explains_predicates(v, r),
    ensures
        r matches PredicateResolution::Resolved(ids) ==> v@ == ids@,
        r is EmptyResultSet ==> v@.len() == 0,
{
}

/// Whether a retriever is the one that a query names.
pub open spec fn is_named(r: Retriever, w: RetrieverWire) -> bool {
    &&& r is Semantic <==> w is Semantic
    &&& r is Lexical <==> w is Lexical
    &&& r is Graph <==> w is Graph
}

/// A query asks for the retrievers that it names, in order, at most three, or
/// leaves the choice to the planner.
pub proof fn queries_pick_their_retrievers(
    r: Result<RetrieverSelection, OpError>,
    w: RetrieverSelectionWire,
    i: int,
)
    requires
        selects_retrievers(r, w),
    ensures
        w is Auto ==> (r matches Ok(s) && s is Auto),
        w matches RetrieverSelectionWire::Explicit(l) ==> {
            &&& r is Ok <==> l@.len() <= 3
            &&& r matches Ok(s) ==> (s matches RetrieverSelection::Explicit(v) && v@.len()
                == l@.len() && (0 <= i < l@.len() ==> is_named(v@[i], l@[i])))
        },
{
}

/// A query asks the planner for what it says, in its caller's space alone.
pub proof fn queries_ask_for_what_they_say(
    r: Result<PlannerQueryRequest, OpError>,
    req: WireQueryRequest,
    predicates: Vec<u32>,
    space: [u8; 16],
    i: int,
)
    requires
        plans_query(r, req, predicates, space),
    ensures
        r is Ok <==> req.kind_filter@.len() <= 256 && (req.retrievers matches
            RetrieverSelectionWire::Explicit(l) ==> l@.len() <= 3),
        r matches Err(e) ==> e is InvalidRequest,
        r matches Ok(p) ==> {
            &&& req.text@.len() == 0 ==> p.text is None
            &&& req.text@.len() > 0 ==> (p.text matches Some(t) && t@ == req.text@)
            &&& p.entity_anchor == req.entity_anchor
            &&& p.kind_filter@.len() == req.kind_filter@.len()
            &&& 0 <= i < req.kind_filter@.len() ==> p.kind_filter@[i].byte() == req.kind_filter@[i]
            &&& p.predicate_filter@ == predicates@
            &&& p.time_filter is None <==> req.time_filter is None
            &&& p.time_filter matches Some(a) ==> (req.time_filter matches Some(b) && (
                a.from_unix_ms,
                a.to_unix_ms,
            ) == (b.from_unix_ms, b.to_unix_ms))
            &&& p.session_filter@.len() == 0
            &&& p.space_filter@.len() == 1 && p.space_filter@[0] == space
            &&& p.confidence_min == req.confidence_min
            &&& p.include_tombstoned == req.include_tombstoned
            &&& p.include_superseded == req.include_superseded
            &&& p.as_of_record_time_unix_nanos == req.as_of_record_time_unix_nanos
            &&& p.limit == req.limit
            &&& p.retrievers is Auto <==> req.retrievers is Auto
            &&& p.fusion_config is None <==> req.fusion_config is None
            &&& p.fusion_config matches Some(c) ==> (req.fusion_config matches Some(w) && c.k == w.k
                && (c.weights.semantic, c.weights.lexical, c.weights.graph) == (
                w.semantic_weight,
                w.lexical_weight,
                w.graph_weight,
            ) && c.weights.temporal.bits == 0x3F00_0000)
        },
{
}

/// A recall asks the planner for its cue from its anchor, in its caller's space
/// and its own sessions alone, for a thousand candidates that are current.
pub proof fn recalls_ask_for_their_cue(
    p: PlannerQueryRequest,
    req: RecallRequest,
    space: [u8; 16],
    anchor: Option<[u8; 16]>,
)
    requires
        plans_recall(p, req, space, anchor),
    ensures
        p.text matches Some(t) && t@ == req.cue_text@,
        p.entity_anchor == anchor,
        p.space_filter@.len() == 1 && p.space_filter@[0] == space,
        req.session_filter matches Some(l) ==> p.session_filter@ == l@,
        req.session_filter is None ==> p.session_filter@.len() == 0,
        p.confidence_min is Some <==> !req.confidence_threshold.nan()
            && req.confidence_threshold.key() > 0,
        p.confidence_min matches Some(c) ==> c == req.confidence_threshold,
        p.include_tombstoned == false && p.include_superseded == false,
        p.as_of_record_time_unix_nanos == req.as_of_record_time_unix_nanos,
        p.limit == 1000 && p.retrievers is Auto,
        p.kind_filter@.len() == 0 && p.predicate_filter@.len() == 0 && p.time_filter is None
            && p.fusion_config is None,
{
}

/// A query or a recall without any signal is the caller's mistake; a failed
/// execution is not.
pub proof fn planning_failures_keep_their_kind(
    recall: OpError,
    query: OpError,
    e: PlanError,
    recall_run: OpError,
    query_run: OpError,
    x: ExecutionError,
)
    requires
        maps_recall_plan_error(recall, e),
        maps_plan_error(query, e),
        maps_execution_error(recall_run, x),
        maps_executor_error(query_run, x),
    ensures
        recall is InvalidRequest && query is InvalidRequest,
        recall_run is Internal && query_run is Internal,
{
}

/// The cut is on for the five words that say so, and off otherwise.
pub proof fn only_five_words_switch_the_cut_on(r: bool, setting: Option<&str>)
    requires
        switches_autocut(r, setting),
    ensures
        setting is None ==> !r,
        setting matches Some(s) ==> (r <==> s@ == "1"@ || s@ == "true"@ || s@ == "TRUE"@ || s@
            == "on"@ || s@ == "ON"@),
{
}

} // verus!
