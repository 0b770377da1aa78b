//! Query introspection: validation and translation of a query.
use vstd::prelude::*;

use vstd::utf8::encode_utf8;

use crate::error::{fails, invalid, ErrorView, OpError};
use crate::retrieval::ExecutionError;
use crate::single::{Single, HALF_BITS};
use crate::statement::{first_colon, split_qname, splits_into, StatementKind};
use crate::statement_ops::not_in_schema;
use crate::statement_reads::ListPredicate;
use crate::text::{decimal, join2, join3, push_decimal, quoted, quoted_text};

verus! {

/// Most bytes of query text.
pub const MAX_QUERY_TEXT_BYTES: usize = 16384;

/// Most retrievers that a query may name.
pub const MAX_EXPLICIT_RETRIEVERS: usize = 3;

/// Most entries of a predicate filter.
pub const MAX_PREDICATE_FILTER: usize = 256;

/// Most entries of a kind filter.
pub const MAX_KIND_FILTER: usize = 256;

/// A retriever.
#[derive(Clone, Copy, Debug, PartialEq, Eq, Structural)]
pub enum Retriever {
    Semantic,
    Lexical,
    Graph,
}

/// The retrievers of a query: the planner's choice, or a given list.
#[derive(Debug)]
pub enum RetrieverSelection {
    Auto,
    Explicit(Vec<Retriever>),
}

#[derive(Clone, Copy, Debug, PartialEq, Eq, Structural)]
pub struct TimeRange {
    pub from_unix_ms: u64,
    pub to_unix_ms: u64,
}

/// The weights of the lanes in a fused score.
#[derive(Clone, Copy, Debug, PartialEq, Eq, Structural)]
pub struct PerRetrieverWeights {
    pub semantic: Single,
    pub lexical: Single,
    pub graph: Single,
    pub temporal: Single,
}

#[derive(Clone, Copy, Debug, PartialEq, Eq, Structural)]
pub struct FusionConfig {
    pub k: u32,
    pub weights: PerRetrieverWeights,
}

/// What the planner is asked.
#[derive(Debug)]
pub struct PlannerQueryRequest {
    pub text: Option<String>,
    pub entity_anchor: Option<[u8; 16]>,
    pub kind_filter: Vec<StatementKind>,
    pub predicate_filter: Vec<u32>,
    pub time_filter: Option<TimeRange>,
    pub session_filter: Vec<u64>,
    pub space_filter: Vec<[u8; 16]>,
    pub confidence_min: Option<Single>,
    pub include_tombstoned: bool,
    pub include_superseded: bool,
    pub as_of_record_time_unix_nanos: Option<u64>,
    pub limit: u32,
    pub retrievers: RetrieverSelection,
    pub fusion_config: Option<FusionConfig>,
}

/// Why the planner makes no plan.
#[derive(Clone, Copy, Debug, PartialEq, Eq, Structural)]
pub enum PlanError {
    NoSignal,
}

// The wire query.

#[derive(Clone, Copy, Debug, PartialEq, Eq, Structural)]
pub enum RetrieverWire {
    Semantic,
    Lexical,
    Graph,
}

#[derive(Debug)]
pub enum RetrieverSelectionWire {
    Auto,
    Explicit(Vec<RetrieverWire>),
}

#[derive(Clone, Copy, Debug, PartialEq, Eq, Structural)]
pub struct TimeRangeWire {
    pub from_unix_ms: u64,
    pub to_unix_ms: u64,
}

#[derive(Clone, Copy, Debug, PartialEq, Eq, Structural)]
pub struct FusionConfigWire {
    pub k: u32,
    pub semantic_weight: Single,
    pub lexical_weight: Single,
    pub graph_weight: Single,
}

/// A query as clients send it.
#[derive(Debug)]
pub struct WireQueryRequest {
    pub text: String,
    pub entity_anchor: Option<[u8; 16]>,
    pub kind_filter: Vec<u8>,
    pub predicate_filter: Vec<String>,
    pub time_filter: Option<TimeRangeWire>,
    pub confidence_min: Option<Single>,
    pub include_tombstoned: bool,
    pub include_superseded: bool,
    pub as_of_record_time_unix_nanos: Option<u64>,
    pub limit: u32,
    pub retrievers: RetrieverSelectionWire,
    pub fusion_config: Option<FusionConfigWire>,
}

/// What checking the text of a query comes to.
pub open spec fn admits_text(
    r: Result<(), OpError>,
    text: Seq<char>,
) -> bool {
    &&& (encode_utf8(text).len() > MAX_QUERY_TEXT_BYTES ==> fails(
        r,
        ErrorView::InvalidRequest("query text exceeds 16384 bytes"@),
    ))
    &&& (encode_utf8(text).len() <= MAX_QUERY_TEXT_BYTES ==> r is Ok)
}

/// Checks the length of a query's text.
pub fn validate_text_length(text: &str) -> (r: Result<(), OpError>)
    ensures
        admits_text(r, text@),
{
    if text.as_bytes().len() > MAX_QUERY_TEXT_BYTES {
        return Err(invalid("query text exceeds 16384 bytes"));
    }
    Ok(())
}

// The predicate filter.

/// A name of a predicate filter, with what was looked up for it.
#[derive(Debug)]
pub struct FilterEntry {
    pub qname: String,
    pub lookup: ListPredicate,
}

/// A resolved predicate filter: the predicates, or the knowledge that nothing
/// can match.
#[derive(Debug)]
pub enum PredicateResolution {
    Resolved(Vec<u32>),
    EmptyResultSet,
}

/// A resolution as plain values.
pub enum FilterOutcome {
    Resolved(Seq<u32>),
    EmptyResultSet,
    Fails(ErrorView),
}

/// The error for a name that is not qualified.
pub open spec fn unqualified(q: Seq<char>) -> ErrorView {
    ErrorView::InvalidRequest(
        "predicate filter qname "@ + quoted_text(q) + " must be \"namespace:name\""@,
    )
}

/// The namespace of a qualified name: what stands before its first colon.
pub open spec fn namespace_of(q: Seq<char>) -> Seq<char>
    decreases q.len(),
{
    if q.len() == 0 || q[0] == ':' {
        Seq::empty()
    } else {
        seq![q[0]] + namespace_of(q.skip(1))
    }
}

proof fn split_namespace(q: Seq<char>, ns: Seq<char>, name: Seq<char>)
    requires
        splits_into(q, ns, name),
    ensures
        ns == namespace_of(q),
    decreases q.len(),
{
    if ns.len() > 0 {
        let rest = ns.skip(1);
        assert(q[0] == ns[0]);
        assert(ns.contains(ns[0]));
        assert(q.skip(1) =~= rest.push(':') + name);
        assert(!rest.contains(':')) by {
            if rest.contains(':') {
                let k = choose|k: int| 0 <= k < rest.len() && rest[k] == ':';
                assert(ns[k + 1] == ':');
            }
        }
        split_namespace(q.skip(1), rest, name);
        assert(ns =~= seq![q[0]] + rest);
    } else {
        assert(q[0] == ns.push(':')[0]);
        assert(ns =~= Seq::empty());
    }
}

/// What one more name makes of a resolution: an unknown name is an error under
/// a schema; without one nothing can match.
pub open spec fn filter_step(before: FilterOutcome, e: FilterEntry) -> FilterOutcome {
    match before {
        FilterOutcome::Resolved(ids) => if !e.qname@.contains(':') {
            FilterOutcome::Fails(unqualified(e.qname@))
        } else {
            match (e.lookup.found, e.lookup.active_version) {
                (Some(id), _) => FilterOutcome::Resolved(ids.push(id)),
                (None, Some(version)) => FilterOutcome::Fails(
                    not_in_schema(e.qname@, namespace_of(e.qname@), version),
                ),
                (None, None) => FilterOutcome::EmptyResultSet,
            }
        },
        other => other,
    }
}

/// What the names of a filter resolve to, in order.
pub open spec fn filter_walk(entries: Seq<FilterEntry>) -> FilterOutcome
    decreases entries.len(),
{
    if entries.len() == 0 {
        FilterOutcome::Resolved(Seq::empty())
    } else {
        filter_step(filter_walk(entries.drop_last()), entries.last())
    }
}

/// What a filter resolves to: too many names are refused at once.
pub open spec fn filter_outcome(entries: Seq<FilterEntry>) -> FilterOutcome {
    if entries.len() > MAX_PREDICATE_FILTER {
        FilterOutcome::Fails(
            ErrorView::InvalidRequest(
                "predicate_filter has "@ + decimal(entries.len()) + " entries; max is 256"@,
            ),
        )
    } else {
        filter_walk(entries)
    }
}

/// Whether a result is this outcome.
pub open spec fn is_outcome(r: Result<PredicateResolution, OpError>, o: FilterOutcome) -> bool {
    match o {
        FilterOutcome::Resolved(ids) => r matches Ok(PredicateResolution::Resolved(v)) && v@ == ids,
        FilterOutcome::EmptyResultSet => r matches Ok(PredicateResolution::EmptyResultSet),
        FilterOutcome::Fails(e) => fails(r, e),
    }
}

proof fn outcome_is_final(entries: Seq<FilterEntry>, n: int)
    requires
        0 <= n <= entries.len(),
        !(filter_walk(entries.take(n)) is Resolved),
    ensures
        filter_walk(entries) == filter_walk(entries.take(n)),
    decreases entries.len(),
{
    if n < entries.len() {
        assert(entries.drop_last().take(n) =~= entries.take(n));
        outcome_is_final(entries.drop_last(), n);
    } else {
        assert(entries.take(n) =~= entries);
    }
}

/// Whether a name of a filter can be looked up: it has a namespace.
pub fn is_qualified(q: &str) -> (r: bool)
    ensures
        r == q@.contains(':'),
{
    match first_colon(q) {
        Some(i) => {
            assert(q@[i as int] == ':');
            true
        },
        None => false,
    }
}

/// Resolves a predicate filter from what was looked up for its names.
pub fn resolve_predicate_filter(entries: &Vec<FilterEntry>) -> (r: Result<
    PredicateResolution,
    OpError,
>)
    ensures
        is_outcome(r, filter_outcome(entries@)),
{
    if entries.len() > MAX_PREDICATE_FILTER {
        let mut message = "predicate_filter has ".to_owned();
        push_decimal(&mut message, entries.len() as u64);
        message.push_str(" entries; max is 256");
        return Err(OpError::InvalidRequest(message));
    }
    let mut out: Vec<u32> = Vec::new();
    assert(out@ =~= Seq::empty());
    for i in 0..entries.len()
        invariant
            entries@.len() <= MAX_PREDICATE_FILTER,
            filter_walk(entries@.take(i as int)) == FilterOutcome::Resolved(out@),
    {
        let e = &entries[i];
        proof {
            assert(entries@.take(i + 1).drop_last() =~= entries@.take(i as int));
            assert(entries@.take(i + 1).last() == *e);
            if !(filter_walk(entries@.take(i + 1)) is Resolved) {
                outcome_is_final(entries@, i + 1);
            }
        }
        let (ns, name) = match split_qname(&e.qname) {
            Ok(p) => p,
            Err(_) => {
                let shown = quoted(&e.qname);
                return Err(
                    OpError::InvalidRequest(
                        join3(
                            "predicate filter qname ",
                            &shown,
                            " must be \"namespace:name\"",
                        ),
                    ),
                );
            },
        };
        proof {
            split_namespace(e.qname@, ns@, name@);
        }
        match e.lookup.found {
            Some(id) => {
                out.push(id);
            },
            None => match e.lookup.active_version {
                Some(version) => {
                    return Err(
                        OpError::PredicateNotInSchema {
                            predicate: e.qname.clone(),
                            namespace: ns.to_owned(),
                            version,
                        },
                    );
                },
                None => {
                    return Ok(PredicateResolution::EmptyResultSet);
                },
            },
        }
    }
    assert(entries@.take(entries@.len() as int) =~= entries@);
    Ok(PredicateResolution::Resolved(out))
}

/// Which predicates an explanation names.
pub open spec fn explains_predicates(
    v: Vec<u32>,
    r: PredicateResolution,
) -> bool {
    match r {
        PredicateResolution::Resolved(ids) => v == ids,
        PredicateResolution::EmptyResultSet => v@.len() == 0,
    }
}

/// The predicates that an explanation is made with: where nothing can match,
/// the plan is explained without the filter.
pub fn explained_predicates(r: PredicateResolution) -> (v: Vec<u32>)
    ensures
        explains_predicates(v, r),
{
    match r {
        PredicateResolution::Resolved(ids) => ids,
        PredicateResolution::EmptyResultSet => Vec::new(),
    }
}

/// The text of a trace that is not run, because nothing can match.
pub fn skipped_trace_text() -> (r: String)
    ensures
        r@
            == "PLAN: skipped (predicate filter contains an unknown qname; schemaless mode short-circuits to empty result set)"@,
{
    "PLAN: skipped (predicate filter contains an unknown qname; schemaless mode short-circuits to empty result set)".to_owned()
}

// Translation.

pub fn time_range_from_wire(w: TimeRangeWire) -> (r: TimeRange)
    ensures
        r.from_unix_ms == w.from_unix_ms,
        r.to_unix_ms == w.to_unix_ms,
{
    TimeRange { from_unix_ms: w.from_unix_ms, to_unix_ms: w.to_unix_ms }
}

/// The retriever that a client names.
pub open spec fn named_retriever(w: RetrieverWire) -> Retriever {
    match w {
        RetrieverWire::Semantic => Retriever::Semantic,
        RetrieverWire::Lexical => Retriever::Lexical,
        RetrieverWire::Graph => Retriever::Graph,
    }
}

pub fn retriever_from_wire(w: RetrieverWire) -> (r: Retriever)
    ensures
        r == named_retriever(w),
{
    match w {
        RetrieverWire::Semantic => Retriever::Semantic,
        RetrieverWire::Lexical => Retriever::Lexical,
        RetrieverWire::Graph => Retriever::Graph,
    }
}

/// The error for too many named retrievers.
pub open spec fn selection_error(w: RetrieverSelectionWire) -> Option<ErrorView> {
    match w {
        RetrieverSelectionWire::Explicit(list) if list@.len() > MAX_EXPLICIT_RETRIEVERS => Some(
            ErrorView::InvalidRequest("explicit retriever list exceeds 3 entries"@),
        ),
        _ => None,
    }
}

/// Whether a selection is the one a client asks for.
pub open spec fn selects(s: RetrieverSelection, w: RetrieverSelectionWire) -> bool {
    match w {
        RetrieverSelectionWire::Auto => s is Auto,
        RetrieverSelectionWire::Explicit(list) => s matches RetrieverSelection::Explicit(v) && v@
            == list@.map_values(|x: RetrieverWire| named_retriever(x)),
    }
}

/// What reading the retrievers of a query comes to.
pub open spec fn selects_retrievers(
    r: Result<RetrieverSelection, OpError>,
    w: RetrieverSelectionWire,
) -> bool {
    match selection_error(w) {
        Some(e) => fails(r, e),
        None => r matches Ok(s) && selects(s, w),
    }
}

pub fn retriever_selection_from_wire(w: &RetrieverSelectionWire) -> (r: Result<
    RetrieverSelection,
    OpError,
>)
    ensures
        selects_retrievers(r, *w),
{
    match w {
        RetrieverSelectionWire::Auto => Ok(RetrieverSelection::Auto),
        RetrieverSelectionWire::Explicit(list) => {
            if list.len() > MAX_EXPLICIT_RETRIEVERS {
                return Err(invalid("explicit retriever list exceeds 3 entries"));
            }
            let mut out: Vec<Retriever> = Vec::new();
            for i in 0..list.len()
                invariant
                    out@.len() == i,
                    forall|k: int| 0 <= k < i ==> out@[k] == named_retriever(list@[k]),
            {
                out.push(retriever_from_wire(list[i]));
            }
            assert(out@ =~= list@.map_values(|x: RetrieverWire| named_retriever(x)));
            Ok(RetrieverSelection::Explicit(out))
        },
    }
}

/// The weights that a client gives; the temporal lane weighs one half.
pub open spec fn fusion_of(w: FusionConfigWire) -> FusionConfig {
    FusionConfig {
        k: w.k,
        weights: PerRetrieverWeights {
            semantic: w.semantic_weight,
            lexical: w.lexical_weight,
            graph: w.graph_weight,
            temporal: Single { bits: HALF_BITS },
        },
    }
}

pub fn fusion_config_from_wire(w: FusionConfigWire) -> (r: FusionConfig)
    ensures
        r == fusion_of(w),
{
    FusionConfig {
        k: w.k,
        weights: PerRetrieverWeights {
            semantic: w.semantic_weight,
            lexical: w.lexical_weight,
            graph: w.graph_weight,
            temporal: Single { bits: HALF_BITS },
        },
    }
}

/// The kind that a byte stands for; every byte is a kind.
pub fn statement_kind_from_byte(b: u8) -> (r: StatementKind)
    ensures
        r == StatementKind::of_byte(b),
{
    StatementKind::from_u8(b)
}

/// Why a query is not translated, if it is not.
pub open spec fn translation_error(req: WireQueryRequest) -> Option<ErrorView> {
    if req.kind_filter@.len() > MAX_KIND_FILTER {
        Some(
            ErrorView::InvalidRequest(
                "kind_filter has "@ + decimal(req.kind_filter@.len()) + " entries; max is 256"@,
            ),
        )
    } else {
        selection_error(req.retrievers)
    }
}

/// Whether the planner is asked what a client asks: with the filters that the
/// client gives, and always within the caller's own space.
pub open spec fn translates(
    p: PlannerQueryRequest,
    req: WireQueryRequest,
    predicates: Vec<u32>,
    space: [u8; 16],
) -> bool {
    &&& p.text == (if req.text@.len() == 0 {
        None
    } else {
        Some(req.text)
    })
    &&& p.entity_anchor == req.entity_anchor
    &&& p.kind_filter@ == req.kind_filter@.map_values(|b: u8| StatementKind::of_byte(b))
    &&& p.predicate_filter == predicates
    &&& p.time_filter == (match req.time_filter {
        Some(t) => Some(TimeRange { from_unix_ms: t.from_unix_ms, to_unix_ms: t.to_unix_ms }),
        None => None,
    })
    &&& p.session_filter@.len() == 0
    &&& p.space_filter@ == seq![space]
    &&& p.confidence_min == req.confidence_min
    &&& p.include_tombstoned == req.include_tombstoned
    &&& p.include_superseded == req.include_superseded
    &&& p.as_of_record_time_unix_nanos == req.as_of_record_time_unix_nanos
    &&& p.limit == req.limit
    &&& selects(p.retrievers, req.retrievers)
    &&& p.fusion_config == (match req.fusion_config {
        Some(w) => Some(fusion_of(w)),
        None => None,
    })
}

/// What translating a query comes to.
pub open spec fn plans_query(
    r: Result<PlannerQueryRequest, OpError>,
    req: WireQueryRequest,
    predicate_filter: Vec<u32>,
    caller_space: [u8; 16],
) -> bool {
    match translation_error(req) {
        Some(e) => fails(r, e),
        None => r matches Ok(p) && translates(p, req, predicate_filter, caller_space),
    }
}

/// Translates a query for the planner.
pub fn wire_to_planner_request(
    req: &WireQueryRequest,
    predicate_filter: Vec<u32>,
    caller_space: [u8; 16],
) -> (r: Result<PlannerQueryRequest, OpError>)
    ensures
        plans_query(r, *req, predicate_filter, caller_space),
{
    let text = if req.text.as_str().is_empty() {
        None
    } else {
        Some(req.text.clone())
    };
    if req.kind_filter.len() > MAX_KIND_FILTER {
        let mut message = "kind_filter has ".to_owned();
        push_decimal(&mut message, req.kind_filter.len() as u64);
        message.push_str(" entries; max is 256");
        return Err(OpError::InvalidRequest(message));
    }
    let mut kind_filter: Vec<StatementKind> = Vec::new();
    for i in 0..req.kind_filter.len()
        invariant
            kind_filter@.len() == i,
            forall|k: int|
                0 <= k < i ==> kind_filter@[k] == StatementKind::of_byte(req.kind_filter@[k]),
    {
        kind_filter.push(statement_kind_from_byte(req.kind_filter[i]));
    }
    assert(kind_filter@ =~= req.kind_filter@.map_values(|b: u8| StatementKind::of_byte(b)));
    let time_filter = match req.time_filter {
        Some(t) => Some(time_range_from_wire(t)),
        None => None,
    };
    let retrievers = match retriever_selection_from_wire(&req.retrievers) {
        Ok(s) => s,
        Err(e) => {
            return Err(e);
        },
    };
    let fusion_config = match req.fusion_config {
        Some(w) => Some(fusion_config_from_wire(w)),
        None => None,
    };
    let mut space_filter: Vec<[u8; 16]> = Vec::new();
    space_filter.push(caller_space);
    assert(space_filter@ =~= seq![caller_space]);
    Ok(
        PlannerQueryRequest {
            text,
            entity_anchor: req.entity_anchor,
            kind_filter,
            predicate_filter,
            time_filter,
            session_filter: Vec::new(),
            space_filter,
            confidence_min: req.confidence_min,
            include_tombstoned: req.include_tombstoned,
            include_superseded: req.include_superseded,
            as_of_record_time_unix_nanos: req.as_of_record_time_unix_nanos,
            limit: req.limit,
            retrievers,
            fusion_config,
        },
    )
}

// Errors.

/// The error that a query without signal becomes.
pub open spec fn maps_plan_error(
    r: OpError,
    e: PlanError,
) -> bool {
    r@ == ErrorView::InvalidRequest("query has neither text nor entity anchor"@)
}

pub fn map_plan_error(e: PlanError) -> (r: OpError)
    ensures
        maps_plan_error(r, e),
{
    match e {
        PlanError::NoSignal => invalid("query has neither text nor entity anchor"),
    }
}

/// The error that a failed execution of a query becomes.
pub open spec fn maps_executor_error(
    r: OpError,
    e: ExecutionError,
) -> bool {
    r@ == ErrorView::Internal(
        match e {
            ExecutionError::Filter(m) => "filter chain: "@ + m@,
            ExecutionError::Recency(m) => "recency ranking: "@ + m@,
        },
    )
}

pub fn map_executor_error(e: ExecutionError) -> (r: OpError)
    ensures
        maps_executor_error(r, e),
{
    match e {
        ExecutionError::Filter(m) => OpError::Internal(join2("filter chain: ", &m)),
        ExecutionError::Recency(m) => OpError::Internal(join2("recency ranking: ", &m)),
    }
}

/// A query never reaches beyond the caller's own space.
pub proof fn queries_stay_in_their_space(
    p: PlannerQueryRequest,
    req: WireQueryRequest,
    predicates: Vec<u32>,
    space: [u8; 16],
    other: [u8; 16],
)
    requires
        translates(p, req, predicates, space),
        p.space_filter@.contains(other),
    ensures
        other == space,
{
}

} // verus!
