use std::collections::HashMap;

use brain_ops::enrichment::{
    fetch_enrichment_for, graphs_by_memory, EntityEdges, EvidenceStatement, IncidentEdge, MemoryGraphRows,
};
use brain_ops::error::OpError;
use brain_ops::events::{EdgeKind, EdgeKindRef, MemoryKind, NodeRef};
use brain_ops::grounded::{
    best_grounded_for_cue, slot_projection_grounded, Slot, SlotHit, SlotStatement, WalkAnswer,
};
use brain_ops::labels::EntityName;
use brain_ops::membership::{
    anchor_direct_memories, answer_recall, assembled_ids, best_score, build_membership,
    missing_sources, score_candidates,
};
use brain_ops::projection::{
    graph_ids, hydrate_memories_by_id, passes_filters, project_memory_results, statement_evidence_memory,
    Contribution, EdgeRow, EvidenceMemories, FusedItem, MemoryRow, RankedItemId,
    StatementEvidence, TextRead,
};
use brain_ops::query::{PlanError, RetrieverSelection};
use brain_ops::recall::{
    abstain, admit_recall, recall_frame, AnswerKind, AnswerShape, GroundedAnswer,
    GroundedOutcome, GroundedValue, Lane, MemoryResult, RecallRequest,
};
use brain_ops::retrieval::{
    apply_autocut, autocut_enabled, build_planner_request, condition_on_cue, is_graph_only,
    map_execution_error, map_recall_plan_error, order_by_fused_score, overlay_txn_buffer,
    retrieved_memories, BufferedEncode, ExecutionError, TxnBuffer,
};
use brain_ops::scope::RowScope;
use brain_ops::single::{Double, Single};
use brain_ops::statement::{StatementObject, StatementValue, SubjectRef};
use brain_ops::surfaces::{
    anchors_of, resolve_graph_anchor, subject_candidates_from_cue, subject_surfaces,
};

fn single(x: f32) -> Single {
    Single::from_bits(x.to_bits())
}

fn num(x: Single) -> f32 {
    f32::from_bits(x.to_bits())
}

fn double(x: f64) -> Double {
    Double { bits: x.to_bits() }
}

fn caller() -> RowScope {
    RowScope { namespace_id: 3, space_id_bytes: [9; 16] }
}

fn request() -> RecallRequest {
    RecallRequest {
        cue_text: "cue".into(),
        subject_name: String::new(),
        max_results: 10,
        confidence_threshold: single(0.0),
        session_filter: None,
        age_bound_unix_nanos: None,
        as_of_record_time_unix_nanos: None,
        kind_filter: None,
        salience_floor: single(0.0),
        include_edges: false,
        include_graph: false,
        include_text: true,
        request_id: None,
        txn_id: None,
        trace: false,
        act_as: None,
    }
}

fn row(id: u128) -> MemoryRow {
    MemoryRow {
        memory_id: id,
        namespace_id: 3,
        space_id_bytes: [9; 16],
        kind: Some(MemoryKind::Episodic),
        session_id: 1,
        tombstoned: false,
        salience: single(0.5),
        salience_initial: single(0.5),
        created_at_unix_nanos: 100,
        last_accessed_at_unix_nanos: 200,
        access_count: 1,
        encoded_at_lsn: 7,
        flags: 1,
        consolidated_at_unix_nanos: None,
        occurred_at_unix_nanos: None,
        edges_out_count: 0,
        edges_in_count: 0,
        text: TextRead::Text(format!("text {id}")),
    }
}

fn item(id: RankedItemId, row: Option<MemoryRow>, fused: f64, lanes: &[Lane]) -> FusedItem {
    FusedItem {
        id,
        contributing: lanes
            .iter()
            .map(|l| Contribution { retriever: *l, raw_score: single(0.8) })
            .collect(),
        fused_score: double(fused),
        shown_score: single(fused as f32),
        rerank_score: None,
        statement: None,
        row,
        edges: Vec::new(),
    }
}

fn ids(v: &[MemoryResult]) -> Vec<u128> {
    v.iter().map(|m| m.memory_id).collect()
}

#[test]
fn requests_are_normalised() {
    let (r, asked) = admit_recall(RecallRequest { max_results: 0, ..request() }).unwrap();
    assert_eq!((r.max_results, asked), (50, false));
    let (r, asked) = admit_recall(RecallRequest { max_results: 5000, ..request() }).unwrap();
    assert_eq!((r.max_results, asked), (1000, true));
    let (r, _) = admit_recall(RecallRequest { include_text: false, ..request() }).unwrap();
    assert!(r.include_text);
    let long = RecallRequest { session_filter: Some(vec![1; 1025]), ..request() };
    match admit_recall(long).unwrap_err() {
        OpError::InvalidRequest(m) => {
            assert_eq!(m, "recall: session_filter must have <= 1024 entries")
        }
        other => panic!("{other:?}"),
    }
}

#[test]
fn hydration_keeps_to_the_caller() {
    let foreign = MemoryRow { namespace_id: 4, ..row(2) };
    let dead = MemoryRow { tombstoned: true, ..row(3) };
    let rows = vec![Some(row(1)), Some(foreign), Some(dead), None];
    let got = hydrate_memories_by_id(rows, &request(), &caller()).unwrap();
    assert_eq!(ids(&got), vec![1]);
    assert_eq!(got[0].text, "text 1");
    let bad = MemoryRow { text: TextRead::Unreadable("utf8".into()), ..row(1) };
    assert!(hydrate_memories_by_id(vec![Some(bad)], &request(), &caller()).is_err());
}

#[test]
fn filters_of_a_recall() {
    let pass = |r: &RecallRequest| passes_filters(r, MemoryKind::Episodic, 1, single(0.5), 100);
    assert!(pass(&request()));
    assert!(!pass(&RecallRequest { session_filter: Some(vec![2]), ..request() }));
    assert!(!pass(&RecallRequest { kind_filter: Some(vec![MemoryKind::Semantic]), ..request() }));
    assert!(!pass(&RecallRequest { salience_floor: single(0.6), ..request() }));
    assert!(!pass(&RecallRequest { age_bound_unix_nanos: Some(101), ..request() }));
}

#[test]
fn projection_answers_each_memory_once() {
    let mut by_statement = item(RankedItemId::Statement([1; 16]), Some(row(5)), 0.7, &[Lane::Lexical]);
    by_statement.statement = Some(StatementEvidence {
        tombstoned: false,
        evidence: EvidenceMemories::Inline(vec![5]),
    });
    let items = vec![
        item(RankedItemId::Memory(5), Some(row(5)), 0.9, &[Lane::Semantic, Lane::Graph]),
        by_statement,
        item(RankedItemId::Memory(6), Some(MemoryRow { namespace_id: 8, ..row(6) }), 0.5, &[]),
        item(
            RankedItemId::Memory(9),
            Some(MemoryRow { space_id_bytes: [1; 16], ..row(9) }),
            0.45,
            &[Lane::Lexical],
        ),
        item(RankedItemId::Memory(7), None, 0.4, &[]),
        item(RankedItemId::Entity([1; 16]), None, 0.3, &[]),
        item(RankedItemId::Memory(8), Some(row(8)), 0.2, &[Lane::Lexical]),
    ];
    assert_eq!(graph_ids(&items), vec![5, 6, 9, 7, 8]);
    let got = project_memory_results(items, HashMap::new(), &request(), &caller()).unwrap();
    assert_eq!(ids(&got), vec![5, 8]);
    assert_eq!(got[0].contributing_retrievers, vec![Lane::Semantic, Lane::Graph]);
    assert_eq!(got[0].fused_score, single(0.9));
    assert_eq!(got[0].lsn, 7);
    assert!(got[0].edges.is_none());
}

#[test]
fn projection_shows_edges_where_asked() {
    let mut hit = item(RankedItemId::Memory(5), Some(row(5)), 0.9, &[Lane::Semantic]);
    hit.edges = vec![
        EdgeRow {
            kind: EdgeKindRef::Builtin(EdgeKind::Caused),
            to: NodeRef::Memory(6),
            weight: single(0.5),
        },
        EdgeRow { kind: EdgeKindRef::Mentions, to: NodeRef::Entity([1; 16]), weight: single(1.0) },
    ];
    let req = RecallRequest { include_edges: true, ..request() };
    let got = project_memory_results(vec![hit], HashMap::new(), &req, &caller()).unwrap();
    let edges = got[0].edges.as_ref().unwrap();
    assert_eq!(edges.len(), 1);
    assert_eq!((edges[0].target, edges[0].kind), (6, EdgeKind::Caused));
}

#[test]
fn evidence_of_statements() {
    let e = |tombstoned, evidence| Some(StatementEvidence { tombstoned, evidence });
    assert_eq!(
        statement_evidence_memory(&e(false, EvidenceMemories::Inline(vec![4, 5]))),
        Some(4)
    );
    assert_eq!(statement_evidence_memory(&e(true, EvidenceMemories::Inline(vec![4]))), None);
    assert_eq!(statement_evidence_memory(&e(false, EvidenceMemories::Overflow)), None);
    assert_eq!(statement_evidence_memory(&None), None);
}

#[test]
fn graph_hits_are_conditioned_on_the_cue() {
    let items = vec![
        item(RankedItemId::Memory(1), None, 0.9, &[Lane::Graph]),
        item(RankedItemId::Memory(2), None, 0.5, &[Lane::Semantic]),
        item(RankedItemId::Entity([1; 16]), None, 0.4, &[Lane::Graph]),
    ];
    assert!(is_graph_only(&items[0].contributing));
    assert!(!is_graph_only(&items[1].contributing));
    assert!(!is_graph_only(&Vec::new()));
    let scale = |_: u128, s: Double| {
        let x = f64::from_bits(s.bits) * 0.5;
        (double(x), single(x as f32))
    };
    let got = condition_on_cue(items, &scale);
    let scores: Vec<f64> = got.iter().map(|i| f64::from_bits(i.fused_score.bits)).collect();
    assert_eq!(scores, vec![0.5, 0.45, 0.4]);
    assert_eq!(got[1].shown_score, single(0.45));
    let tie = vec![
        item(RankedItemId::Memory(1), None, 0.5, &[]),
        item(RankedItemId::Memory(2), None, 0.7, &[]),
        item(RankedItemId::Memory(3), None, 0.5, &[]),
    ];
    let order: Vec<_> = order_by_fused_score(tie).into_iter().map(|i| i.id).collect();
    assert_eq!(
        order,
        vec![RankedItemId::Memory(2), RankedItemId::Memory(1), RankedItemId::Memory(3)]
    );
}

fn pending(id: u128, score: f32) -> BufferedEncode {
    BufferedEncode {
        memory_id: id,
        text: "new".into(),
        kind: MemoryKind::Episodic,
        space_id: [9; 16],
        session_id: 1,
        salience_initial: single(0.5),
        created_at_unix_nanos: 300,
        occurred_at_unix_nanos: None,
        score: single(score),
    }
}

fn result(id: u128, similarity: f32, fused: f32, lanes: &[Lane]) -> MemoryResult {
    MemoryResult {
        memory_id: id,
        text: String::new(),
        similarity_score: single(similarity),
        confidence: single(similarity),
        salience: single(0.5),
        kind: MemoryKind::Episodic,
        space_id: [9; 16],
        session_id: 1,
        created_at_unix_nanos: 0,
        last_accessed_at_unix_nanos: 0,
        edges: None,
        graph: None,
        contributing_retrievers: lanes.to_vec(),
        fused_score: single(fused),
        rerank_score: None,
        salience_initial: single(0.5),
        access_count: 0,
        lsn: 0,
        flags: 0,
        consolidated_at_unix_nanos: None,
        occurred_at_unix_nanos: None,
        edges_out_count: 0,
        edges_in_count: 0,
    }
}

#[test]
fn a_transaction_reads_its_own_writes() {
    let committed = || vec![result(1, 0.9, 0.0, &[]), result(2, 0.4, 0.0, &[])];
    let got = overlay_txn_buffer(
        committed(),
        vec![pending(7, 0.6), pending(8, 0.5)],
        &vec![1, 8],
        &request(),
    );
    assert_eq!(ids(&got), vec![7, 2]);
    assert_eq!(got[0].text, "new");
    assert!(got[0].contributing_retrievers.is_empty());
    let got = overlay_txn_buffer(committed(), Vec::new(), &vec![2], &request());
    assert_eq!(ids(&got), vec![1]);
}

fn sharp(prev: Single, cur: Single) -> bool {
    num(cur) / num(prev) <= 0.55
}

#[test]
fn the_cut_stops_at_a_cliff() {
    let hits = || vec![result(1, 0.0, 0.9, &[]), result(2, 0.0, 0.8, &[]), result(3, 0.0, 0.1, &[])];
    assert_eq!(ids(&apply_autocut(hits(), &sharp)), vec![1, 2]);
    assert!(apply_autocut(Vec::new(), &sharp).is_empty());
    let flat = vec![result(1, 0.0, 0.9, &[]), result(2, 0.0, 0.8, &[])];
    assert_eq!(apply_autocut(flat, &sharp).len(), 2);
    assert!(autocut_enabled(Some("on")));
    assert!(!autocut_enabled(Some("off")));
    assert!(!autocut_enabled(None));
}

#[test]
fn retrieval_composes() {
    let items = || {
        vec![
            item(RankedItemId::Memory(1), Some(row(1)), 0.9, &[Lane::Semantic]),
            item(RankedItemId::Memory(2), Some(row(2)), 0.1, &[Lane::Semantic]),
        ]
    };
    let got =
        retrieved_memories(items(), HashMap::new(), &request(), &caller(), None, true, &sharp).unwrap();
    assert_eq!(ids(&got), vec![1]);
    let buffer = TxnBuffer { pending: vec![pending(7, 0.95)], tombstoned: vec![1] };
    let got =
        retrieved_memories(items(), HashMap::new(), &request(), &caller(), Some(buffer), false, &sharp)
            .unwrap();
    assert_eq!(ids(&got), vec![7, 2]);
}

#[test]
fn the_planner_is_asked_for_the_whole_pool() {
    let req = RecallRequest { session_filter: Some(vec![4]), ..request() };
    let p = build_planner_request(&req, [9; 16], Some([1; 16]));
    assert_eq!(p.text.as_deref(), Some("cue"));
    assert_eq!(p.limit, 1000);
    assert_eq!(p.space_filter, vec![[9u8; 16]]);
    assert_eq!(p.session_filter, vec![4]);
    assert_eq!(p.confidence_min, None);
    assert!(matches!(p.retrievers, RetrieverSelection::Auto));
    assert_eq!(
        format!("{:?}", map_recall_plan_error(PlanError::NoSignal)),
        "InvalidRequest(\"recall: cue produced no retrievable signal\")"
    );
    assert_eq!(
        format!("{:?}", map_execution_error(ExecutionError::Recency("x".into()))),
        "Internal(\"recency ranking: x\")"
    );
}

// Membership.

fn flat_spread(lo: Single, hi: Single) -> bool {
    num(hi) - num(lo) <= f32::EPSILON
}

fn band(best: Single) -> Single {
    single(num(best) * 0.85)
}

#[test]
fn membership_is_a_band_around_the_best() {
    let candidates = vec![
        result(1, 0.5, 0.0, &[Lane::Semantic]),
        result(2, 0.8, 0.0, &[Lane::Semantic]),
        result(3, 0.3, 0.0, &[Lane::Semantic]),
    ];
    let passages: HashMap<u128, Single> = [(1u128, single(0.78))].into_iter().collect();
    let scored = score_candidates(candidates, &passages);
    let best = best_score(&scored);
    assert_eq!(best, single(0.8));
    let none = GroundedOutcome::NoAnswer;
    assert!(missing_sources(&scored, &none).is_empty());
    let assembled = assembled_ids(&scored, &Vec::new(), &none, band(best));
    assert_eq!(assembled, vec![2, 1]);
    let (members, shape, any) = build_membership(
        scored,
        Vec::new(),
        Vec::new(),
        &none,
        &request(),
        band(best),
        false,
        false,
        &HashMap::new(),
        &flat_spread,
    );
    assert_eq!(ids(&members), vec![2, 1]);
    assert_eq!(shape, None);
    assert!(!any);
}

fn value(src: u128, score: f32) -> GroundedValue {
    GroundedValue {
        predicate: "brain:likes".into(),
        object: StatementObject::Value(StatementValue::Text("tea".into())),
        confidence: single(1.0),
        source_memory: Some(src),
        match_score: single(score),
        recency: 0,
    }
}

fn grounded(src: u128, score: f32) -> GroundedAnswer {
    GroundedAnswer { kind: AnswerKind::Single, values: vec![value(src, score)] }
}

#[test]
fn a_grounded_source_joins_and_leads() {
    let outcome = GroundedOutcome::Answer(grounded(9, 0.7), true);
    let scored = score_candidates(vec![result(1, 0.8, 0.0, &[Lane::Lexical])], &HashMap::new());
    assert_eq!(missing_sources(&scored, &outcome), vec![9]);
    let best = best_score(&scored);
    let hydrated = vec![result(9, 0.0, 0.0, &[])];
    let hype: HashMap<u128, Single> = [(9u128, single(0.9))].into_iter().collect();
    let frame = answer_recall(
        scored,
        hydrated,
        Vec::new(),
        &outcome,
        &request(),
        band(best),
        Some([1; 16]),
        false,
        &hype,
        &flat_spread,
        None,
    );
    assert_eq!(ids(&frame.memories), vec![9, 1]);
    assert_eq!(frame.answer_kind, AnswerShape::Single);
    assert_eq!(frame.cumulative_count, 2);
}

#[test]
fn answers_without_support_are_withheld() {
    let scored = score_candidates(vec![result(1, 0.5, 0.0, &[Lane::Semantic])], &HashMap::new());
    let best = best_score(&scored);
    let frame = answer_recall(
        scored,
        Vec::new(),
        Vec::new(),
        &GroundedOutcome::NoAnswer,
        &request(),
        band(best),
        None,
        false,
        &HashMap::new(),
        &flat_spread,
        None,
    );
    assert!(frame.memories.is_empty());
    assert_eq!(frame.answer_kind, AnswerShape::Nothing);
    let kept = abstain(vec![result(1, 0.5, 0.0, &[])], true, None, &GroundedOutcome::NoAnswer, false);
    assert_eq!(kept.len(), 1);
    let f = recall_frame(vec![result(1, 0.5, 0.0, &[])], None, None);
    assert_eq!(f.answer_kind, AnswerShape::Single);
}

#[test]
fn anchored_memories_are_pulled_once() {
    assert_eq!(
        anchor_direct_memories(&vec![3, 4, 3], &vec![4, 5, 6], &vec![6]),
        vec![3, 4, 5]
    );
}

// Grounding.

#[test]
fn deep_walks_override_slot_answers() {
    let above = |a: Single, b: Single| num(a) > num(b) + 0.02;
    let near = |a: Single, b: Single| (num(a) - num(b)).abs() <= 0.02;
    let walk = |src, score, depth, is_self| WalkAnswer { answer: grounded(src, score), depth, is_self };
    let floor = single(0.6);
    let source = |o: GroundedOutcome| match o {
        GroundedOutcome::Answer(a, scoped) => (a.values[0].source_memory.unwrap(), scoped),
        GroundedOutcome::NoAnswer => (0, false),
    };
    let best = |slot, walks, named| {
        source(best_grounded_for_cue(slot, walks, named, floor, &above, &near))
    };
    assert_eq!(best(None, Vec::new(), true), (0, false));
    assert_eq!(best(Some(grounded(1, 0.7)), vec![walk(2, 0.9, 0, false)], true), (1, true));
    assert_eq!(best(Some(grounded(1, 0.7)), vec![walk(2, 0.9, 1, false)], true), (2, true));
    assert_eq!(best(Some(grounded(1, 0.7)), vec![walk(2, 0.5, 1, false)], false), (1, false));
    // In a near tie a named subject beats the caller.
    assert_eq!(
        best(None, vec![walk(2, 0.80, 0, true), walk(3, 0.79, 0, false)], true),
        (3, true)
    );
    assert_eq!(
        best(None, vec![walk(2, 0.80, 0, true), walk(3, 0.70, 0, false)], true),
        (2, false)
    );
}

#[test]
fn slot_answers_come_from_live_facts() {
    let hit = |slot, score, tombstoned, src| SlotHit {
        slot,
        score: single(score),
        statement: Some(SlotStatement {
            subject: SubjectRef::Entity([1; 16]),
            tombstoned,
            superseded: false,
        }),
        projected: Some(value(src, score)),
    };
    let hits = vec![hit(Slot::Subject, 0.9, true, 1), hit(Slot::Subject, 0.8, false, 2)];
    let a = slot_projection_grounded(hits, &vec![[1; 16]], single(0.6)).unwrap();
    assert_eq!(a.values[0].source_memory, Some(2));
    let weak = vec![hit(Slot::Subject, 0.5, false, 2)];
    assert!(slot_projection_grounded(weak, &vec![[1; 16]], single(0.6)).is_none());
}

#[test]
fn subjects_of_a_cue() {
    assert_eq!(subject_surfaces(" Priya ", "anything"), vec!["Priya"]);
    assert_eq!(subject_surfaces("", "ask Bob I"), vec!["Bob I", "ask", "Bob"]);
    let me = [9; 16];
    let resolved = vec![
        vec![([1; 16], single(0.95)), ([2; 16], single(0.8))],
        vec![([1; 16], single(1.0)), ([3; 16], single(0.9))],
    ];
    let c = subject_candidates_from_cue(me, &resolved);
    assert_eq!(c, vec![me, [1; 16], [3; 16]]);
    assert_eq!(anchors_of(&me, &c), vec![[1u8; 16], [3; 16]]);
    assert_eq!(resolve_graph_anchor(&me, &c), Some([1; 16]));
    assert_eq!(resolve_graph_anchor(&me, &vec![me]), None);
}

// Enrichment.

#[test]
fn enrichment_lists_relations_once() {
    let names = vec![
        EntityName { id: [1; 16], name: "Priya".into(), type_label: Some("brain:person".into()) },
        EntityName { id: [2; 16], name: "Stripe".into(), type_label: Some("brain:org".into()) },
    ];
    let edge = |other| IncidentEdge {
        kind: EdgeKindRef::Typed(7),
        other: NodeRef::Entity(other),
        session: None,
        type_label: Some("brain:works_at".into()),
        created_at_unix_nanos: 5,
    };
    let memory = || MemoryGraphRows {
        memory_id: 5,
        evidence_table: true,
        mentioned: vec![
            EntityEdges { entity: [1; 16], outgoing: vec![edge([2; 16])], incoming: Vec::new() },
            EntityEdges { entity: [2; 16], outgoing: Vec::new(), incoming: vec![edge([1; 16])] },
        ],
        statements: vec![EvidenceStatement {
            id: [5; 16],
            session_id: 1,
            tombstoned: false,
            subject: SubjectRef::Entity([1; 16]),
            predicate: "brain:likes".into(),
            object: StatementObject::Value(StatementValue::Text("tea".into())),
            confidence: single(0.9),
            event_at_unix_nanos: None,
        }],
    };
    let list = fetch_enrichment_for(vec![memory()], &None, &names);
    let e = list[0].as_ref().unwrap();
    assert_eq!(e.entities.len(), 2);
    assert_eq!(e.entities[0].name, "Priya");
    assert_eq!(e.relations.len(), 1);
    assert_eq!(
        (e.relations[0].from_name.as_str(), e.relations[0].to_name.as_str()),
        ("Priya", "Stripe")
    );
    assert_eq!(e.statements[0].object_label, "tea");
    let other = fetch_enrichment_for(vec![memory()], &Some(vec![2]), &names);
    assert!(other[0].as_ref().unwrap().statements.is_empty());
    // Not extracted at all, against extracted with nothing found.
    let bare = |memory_id, evidence_table| MemoryGraphRows {
        memory_id,
        evidence_table,
        mentioned: Vec::new(),
        statements: Vec::new(),
    };
    let list = fetch_enrichment_for(vec![bare(1, false), bare(2, true)], &None, &names);
    assert!(list[0].is_none());
    assert!(list[1].as_ref().unwrap().entities.is_empty());
    let graphs = graphs_by_memory(vec![memory(), bare(1, false), bare(2, true)], &None, &names);
    assert_eq!(graphs.len(), 2);
    assert_eq!(graphs[&5].entities.len(), 2);
    assert!(graphs[&2].relations.is_empty());
}
