use std::collections::HashMap;

use brain_ops::error::OpError;
use brain_ops::events::EdgeKind;
use brain_ops::labels::{lookup_name, push_hex_list, render_object, render_value, EntityName};
use brain_ops::plan::{
    build_plan_trace, edge_to_transition, path_to_steps, plan_frames, plan_text_ids, ExploredNode,
    MeetingPoint, Path, PlanExecutionMetadata, PlanStatus, PlanTraceDirection, TransitionKind,
    WirePlanStatus,
};
use brain_ops::projection::{RankedItemId, TextRead};
use brain_ops::query::{
    explained_predicates, fusion_config_from_wire, map_executor_error, map_plan_error,
    resolve_predicate_filter, retriever_selection_from_wire, skipped_trace_text,
    statement_kind_from_byte, time_range_from_wire, validate_text_length,
    wire_to_planner_request, FilterEntry, FusionConfigWire, PlanError, PredicateResolution,
    Retriever, RetrieverSelection, RetrieverSelectionWire, RetrieverWire, TimeRangeWire,
    WireQueryRequest,
};
use brain_ops::reason::{
    claim_of, reason_frames, InferenceKind, InferenceStep, InternalInferenceKind,
    ObservationInput, ReasonStatus, WireReasonStatus,
};
use brain_ops::reason_trace::{
    build_reason_trace, reason_text_ids, BaseCandidate, EdgeCandidate, InternalReasonTrace,
    ReasonTraceCentroid, ScoreParts, TrimTrace, WalkTrace,
};
use brain_ops::recall::Lane;
use brain_ops::recall_trace::{
    build_recall_trace, candidate_from_ranked, candidate_memories, distinct_ids,
    fetch_trace_texts, render_relation_label, render_statement_label, text_for, FilterStats,
    FusionBreakdown, QueryMetadata, RankedItemKind, RecallTraceRetrieverStatus, RelationLabelRow,
    RerankOutcome, RetrieverOutcome, RetrieverStatus, StatementLabelRow, TypedRows,
};
use brain_ops::retrieval::ExecutionError;
use brain_ops::single::{Double, Single};
use brain_ops::statement::{StatementKind, StatementObject, StatementValue, SubjectRef};
use brain_ops::statement_reads::ListPredicate;

fn single(x: f32) -> Single {
    Single::from_bits(x.to_bits())
}

fn double(x: f64) -> Double {
    Double { bits: x.to_bits() }
}

fn texts() -> HashMap<u128, String> {
    [(1u128, "one".to_string()), (2, "two".to_string())].into_iter().collect()
}

// Plans.

fn path() -> Path {
    Path {
        nodes: vec![1, 2, 3],
        edges: vec![EdgeKind::Caused, EdgeKind::FollowedBy],
        node_text: vec!["one".into()],
        score: single(0.5),
    }
}

#[test]
fn paths_become_steps() {
    let steps = path_to_steps(&path());
    assert_eq!(steps.len(), 3);
    assert!(matches!(steps[0].transition_kind, TransitionKind::Initial));
    assert_eq!(steps[0].text, "one");
    assert_eq!(steps[1].text, "");
    let togo: Vec<_> = steps.iter().map(|s| s.steps_to_goal).collect();
    assert_eq!(togo, vec![2, 1, 0]);
    assert_eq!(steps[2].memory_id, 3);
    assert!(matches!(edge_to_transition(EdgeKind::Caused), TransitionKind::Causal));
    assert!(matches!(edge_to_transition(EdgeKind::FollowedBy), TransitionKind::Temporal));
    assert!(matches!(edge_to_transition(EdgeKind::SimilarTo), TransitionKind::Similarity));
}

#[test]
fn plans_end_with_their_status() {
    let frames = plan_frames(&vec![path()], PlanStatus::Timeout, None);
    assert_eq!(frames.len(), 2);
    assert!(!frames[0].is_final);
    assert!(frames[1].is_final);
    assert!(frames[1].steps.is_empty());
    assert_eq!(frames[1].plan_status, Some(WirePlanStatus::BudgetExhausted));
}

#[test]
fn plan_traces() {
    let meta = PlanExecutionMetadata {
        explored: vec![ExploredNode {
            memory_id: 1,
            direction: PlanTraceDirection::Backward,
            depth: 2,
            parent_id: Some(9),
            alignment_score: single(0.1),
        }],
        meeting_points: vec![
            MeetingPoint { memory_id: 2, included_in_result: true },
            MeetingPoint { memory_id: 1, included_in_result: false },
        ],
    };
    assert_eq!(plan_text_ids(&meta), vec![1, 2]);
    let t = build_plan_trace(&meta, &texts());
    assert_eq!(t.explored[0].text, "one");
    assert_eq!(t.explored[0].parent_edge, Some(9));
    assert_eq!(t.meeting_points[0].text, "two");
    assert!(t.meeting_points[0].included_in_result);
}

// Reasoning.

#[test]
fn reasoning_without_steps_is_one_final_frame() {
    let o = ObservationInput::ByText("why".into());
    assert_eq!(claim_of(&o), "why");
    let frames = reason_frames(&o, Vec::new(), ReasonStatus::Complete, None);
    assert_eq!(frames.len(), 1);
    assert!(frames[0].inferences.is_empty());
    assert!(frames[0].is_final);
    assert_eq!(frames[0].reason_status, Some(WireReasonStatus::Complete));
    let step = InferenceStep {
        step_index: 3,
        supporting: vec![1],
        contradicting: vec![2],
        confidence: single(0.7),
        inference_kind: InternalInferenceKind::CausalExplanation,
    };
    let frames = reason_frames(&o, vec![step], ReasonStatus::Cancelled, None);
    assert_eq!(frames.len(), 2);
    assert_eq!(frames[0].inferences[0].claim, "why");
    assert!(frames[1].is_final);
    assert_eq!(frames[0].inferences[0].step_index, 3);
    assert_eq!(frames[0].inferences[0].inference_kind, InferenceKind::CausalExplanation);
}

#[test]
fn reason_traces() {
    let edge = |id, from| EdgeCandidate {
        memory_id: id,
        edge_kind: EdgeKind::Supports,
        depth: 1,
        from_memory_id: from,
        raw_score: single(0.4),
    };
    let walk = |id| WalkTrace {
        considered: vec![edge(id, 1)],
        dropped_by_edge_kind: Vec::new(),
        dropped_by_tombstone: vec![edge(2, 1)],
        dropped_by_visited: Vec::new(),
    };
    let trim = |id| TrimTrace {
        dropped_by_confidence: vec![(id, single(0.1))],
        dropped_by_trim_cap: Vec::new(),
    };
    let trace = InternalReasonTrace {
        base: vec![BaseCandidate { memory_id: 1, text: Some("base".into()), score: single(0.9) }],
        supports_walk: walk(1),
        contradicts_walk: walk(2),
        supports_trim: trim(1),
        contradicts_trim: trim(2),
        scoring: vec![ScoreParts {
            memory_id: 2,
            base_similarity: single(0.1),
            decay: single(0.2),
            weight_product: single(0.3),
            alignment: single(0.4),
            analogical_fit: single(0.5),
            final_score: single(0.6),
        }],
        centroid: ReasonTraceCentroid { computed: false, skipped_reason: Some("few".into()) },
    };
    let ids = reason_text_ids(&trace);
    assert!(ids.contains(&1) && ids.contains(&2));
    let t = build_reason_trace(trace, &texts());
    assert_eq!(t.base[0].text, "base");
    assert_eq!(t.walk.considered.len(), 2);
    assert_eq!(t.walk.considered[1].text, "two");
    assert_eq!(t.walk.dropped_by_tombstone.len(), 2);
    assert_eq!(t.walk.dropped_by_confidence.len(), 2);
    assert_eq!(t.scoring[0].final_score, single(0.6));
    assert_eq!(t.centroid.skipped_reason.as_deref(), Some("few"));
}

// Queries.

fn entry(qname: &str, active_version: Option<u32>, found: Option<u32>) -> FilterEntry {
    FilterEntry { qname: qname.into(), lookup: ListPredicate { active_version, found } }
}

#[test]
fn predicate_filters_resolve_in_order() {
    match resolve_predicate_filter(&vec![entry("a:b", None, Some(3)), entry("a:c", None, Some(4))])
        .unwrap()
    {
        PredicateResolution::Resolved(v) => assert_eq!(v, vec![3, 4]),
        other => panic!("{other:?}"),
    }
    let unknown = resolve_predicate_filter(&vec![entry("a:b", None, None)]).unwrap();
    assert!(matches!(unknown, PredicateResolution::EmptyResultSet));
    assert!(explained_predicates(PredicateResolution::EmptyResultSet).is_empty());
    assert!(matches!(
        resolve_predicate_filter(&vec![entry("a:b", Some(2), None)]),
        Err(OpError::PredicateNotInSchema { version: 2, .. })
    ));
    match resolve_predicate_filter(&vec![entry("bare", None, None)]).unwrap_err() {
        OpError::InvalidRequest(m) => {
            assert_eq!(m, "predicate filter qname \"bare\" must be \"namespace:name\"")
        }
        other => panic!("{other:?}"),
    }
    let many: Vec<_> = (0..257).map(|_| entry("a:b", None, Some(1))).collect();
    match resolve_predicate_filter(&many).unwrap_err() {
        OpError::InvalidRequest(m) => {
            assert_eq!(m, "predicate_filter has 257 entries; max is 256")
        }
        other => panic!("{other:?}"),
    }
    assert!(!skipped_trace_text().is_empty());
}

fn query() -> WireQueryRequest {
    WireQueryRequest {
        text: "cats".into(),
        entity_anchor: None,
        kind_filter: vec![0, 2],
        predicate_filter: Vec::new(),
        time_filter: Some(TimeRangeWire { from_unix_ms: 1, to_unix_ms: 2 }),
        confidence_min: None,
        include_tombstoned: false,
        include_superseded: true,
        as_of_record_time_unix_nanos: None,
        limit: 9,
        retrievers: RetrieverSelectionWire::Explicit(vec![RetrieverWire::Graph]),
        fusion_config: Some(FusionConfigWire {
            k: 60,
            semantic_weight: single(1.0),
            lexical_weight: single(2.0),
            graph_weight: single(3.0),
        }),
    }
}

#[test]
fn queries_reach_the_planner() {
    let p = wire_to_planner_request(&query(), vec![7], [9; 16]).unwrap();
    assert_eq!(p.text.as_deref(), Some("cats"));
    assert_eq!(p.space_filter, vec![[9u8; 16]]);
    assert_eq!(p.predicate_filter, vec![7]);
    assert_eq!(p.kind_filter.len(), 2);
    assert_eq!(p.limit, 9);
    assert!(matches!(p.retrievers, RetrieverSelection::Explicit(v) if v == vec![Retriever::Graph]));
    assert_eq!(p.fusion_config.unwrap().weights.graph, single(3.0));
    assert_eq!(p.time_filter.unwrap().to_unix_ms, 2);
    let empty = WireQueryRequest { text: String::new(), ..query() };
    assert_eq!(wire_to_planner_request(&empty, Vec::new(), [9; 16]).unwrap().text, None);
    assert_eq!(statement_kind_from_byte(0), StatementKind::Fact);
    let f = fusion_config_from_wire(query().fusion_config.unwrap());
    assert_eq!(f.k, 60);
    assert_eq!(time_range_from_wire(TimeRangeWire { from_unix_ms: 3, to_unix_ms: 4 }).from_unix_ms, 3);
}

#[test]
fn query_limits() {
    assert!(validate_text_length(&"x".repeat(16384)).is_ok());
    assert!(matches!(
        validate_text_length(&"x".repeat(16385)),
        Err(OpError::InvalidRequest(_))
    ));
    let four = RetrieverSelectionWire::Explicit(vec![RetrieverWire::Semantic; 4]);
    assert!(retriever_selection_from_wire(&four).is_err());
    assert!(matches!(
        retriever_selection_from_wire(&RetrieverSelectionWire::Auto).unwrap(),
        RetrieverSelection::Auto
    ));
    assert_eq!(
        format!("{:?}", map_plan_error(PlanError::NoSignal)),
        "InvalidRequest(\"query has neither text nor entity anchor\")"
    );
    assert_eq!(
        format!("{:?}", map_executor_error(ExecutionError::Filter("x".into()))),
        "Internal(\"filter chain: x\")"
    );
}

// Labels.

fn names() -> Vec<EntityName> {
    vec![
        EntityName { id: [1; 16], name: "Priya".into(), type_label: None },
        EntityName { id: [2; 16], name: "Stripe".into(), type_label: None },
    ]
}

#[test]
fn labels_read() {
    assert_eq!(render_value(&StatementValue::Integer(-5)), "-5");
    assert_eq!(render_value(&StatementValue::Integer(i64::MIN)), "-9223372036854775808");
    assert_eq!(render_value(&StatementValue::Bool(true)), "true");
    assert_eq!(render_value(&StatementValue::UnixNanos(u64::MAX)), "18446744073709551615");
    assert_eq!(render_object(&StatementObject::EntityRef([2; 16]), &names()), "Stripe");
    assert_eq!(lookup_name(&names(), &[9; 16]), "");
    let mut s = String::new();
    push_hex_list(&mut s, &[1, 255]);
    assert!(!s.is_empty());
    let rel = |qname: Option<&str>| RelationLabelRow {
        id: [7; 16],
        from: [1; 16],
        to: [2; 16],
        qname: qname.map(|q| q.to_string()),
    };
    assert_eq!(
        render_relation_label(Some(&rel(Some("brain:works_at"))), &names()),
        "Priya \u{2014}brain:works_at\u{2192} Stripe"
    );
    assert_eq!(
        render_relation_label(Some(&rel(None)), &names()),
        "Priya \u{2014}related_to\u{2192} Stripe"
    );
    assert_eq!(render_relation_label(None, &names()), "");
    let st = |object| StatementLabelRow {
        id: [8; 16],
        subject: SubjectRef::Entity([1; 16]),
        predicate: "brain:likes".into(),
        object,
    };
    let tea = st(StatementObject::Value(StatementValue::Text("tea ".into())));
    assert_eq!(render_statement_label(Some(&tea), &names()), "Priya brain:likes tea");
    let pending = StatementLabelRow {
        subject: SubjectRef::Pending([4; 16]),
        ..st(StatementObject::Value(StatementValue::Text("tea".into())))
    };
    assert_eq!(render_statement_label(Some(&pending), &names()), "brain:likes tea");
    let blob = st(StatementObject::Value(StatementValue::Blob(vec![1])));
    assert_eq!(render_statement_label(Some(&blob), &names()), "Priya brain:likes (blob)");
    let float = st(StatementObject::Value(StatementValue::Float {
        bits: 1.5f64.to_bits(),
        shown: "1.5".into(),
    }));
    assert_eq!(render_statement_label(Some(&float), &names()), "Priya brain:likes 1.5");
}

// Recall traces.

fn no_stats() -> FilterStats {
    FilterStats {
        before: 3,
        after_type: 3,
        after_temporal: 3,
        after_confidence: 2,
        after_tombstone: 2,
        after_supersession: 2,
        after_as_of: 2,
        after_limit: 2,
        dropped_by_type: Vec::new(),
        dropped_by_temporal: Vec::new(),
        dropped_by_confidence: vec![RankedItemId::Memory(4), RankedItemId::Entity([1; 16])],
        dropped_by_tombstone: Vec::new(),
        dropped_by_supersession: vec![RankedItemId::Statement([0; 16])],
        dropped_by_as_of: Vec::new(),
        dropped_by_limit: Vec::new(),
    }
}

#[test]
fn recall_traces() {
    let meta = QueryMetadata {
        retriever_latencies_ms: vec![(Retriever::Semantic, double(1.5))],
        retriever_total_results: vec![(Retriever::Semantic, 2)],
        retriever_outcomes: vec![
            RetrieverOutcome { retriever: Retriever::Semantic, status: RetrieverStatus::Success },
            RetrieverOutcome {
                retriever: Retriever::Graph,
                status: RetrieverStatus::Skipped("no anchor".into()),
            },
        ],
        retriever_candidates: vec![(
            Retriever::Semantic,
            vec![
                (RankedItemId::Memory(1), single(0.9)),
                (RankedItemId::Relation([7; 16]), single(0.8)),
            ],
        )],
        filter_stats: no_stats(),
        rerank: Some(RerankOutcome::Applied { candidates: 2, latency_ms: double(3.0) }),
        rerank_before_order: vec![RankedItemId::Memory(1), RankedItemId::Memory(2)],
        rerank_after_order: vec![RankedItemId::Memory(2), RankedItemId::Memory(1)],
        fusion_breakdown: vec![FusionBreakdown {
            id: RankedItemId::Memory(1),
            rrf_score: single(0.3),
            lane_scores: vec![(Retriever::Semantic, single(0.3))],
        }],
        total_latency_ms: double(9.0),
    };
    assert_eq!(candidate_memories(&meta), vec![1]);
    let typed = TypedRows { names: names(), relations: Vec::new(), statements: Vec::new() };
    let t = build_recall_trace(&meta, &texts(), &typed);
    assert_eq!(t.retrievers[0].name, Lane::Semantic);
    assert_eq!(t.retrievers[0].candidate_count, 2);
    assert_eq!(t.retrievers[0].candidates[0].text, "one");
    assert_eq!(t.retrievers[0].candidates[1].kind, RankedItemKind::Relation);
    assert_eq!(t.retrievers[1].status, RecallTraceRetrieverStatus::Skipped);
    assert_eq!(t.retrievers[1].status_detail, "no anchor");
    assert_eq!(t.retrievers[1].latency_ms, double(0.0));
    assert_eq!(t.filter_chain.dropped_by_confidence, vec![4]);
    assert_eq!(t.filter_chain.dropped_by_supersession[0].kind, RankedItemKind::Statement);
    let rerank = t.rerank.unwrap();
    assert!(rerank.applied);
    assert_eq!(rerank.after_order, vec![2, 1]);
    assert_eq!(t.fusion.unwrap()[0].lane_scores, vec![(Lane::Semantic, single(0.3))]);
    let c = candidate_from_ranked(&RankedItemId::Entity([1; 16]), single(0.1), &texts(), &typed);
    assert_eq!(c.text, "Priya");
    assert_eq!(c.item_id, u128::from_be_bytes([1; 16]));
}

#[test]
fn trace_texts() {
    assert_eq!(distinct_ids(&vec![3, 1, 3, 2, 1]), vec![3, 1, 2]);
    let reads = vec![(1u128, TextRead::Text("one".into())), (2, TextRead::Absent)];
    let t = fetch_trace_texts(reads).unwrap();
    assert_eq!(text_for(&t, 1), "one");
    assert_eq!(text_for(&t, 2), "");
    assert!(fetch_trace_texts(vec![(1, TextRead::Unreadable("bad".into()))]).is_err());
}
