use std::collections::{HashMap, HashSet};

use brain_ops::events::MemoryKind;
use brain_ops::grounded::{
    cue_scoped_object_set, slot_hit_projectable, statement_subject_in_scope, Slot, SlotHit,
    SlotStatement,
};
use brain_ops::projection::RankedItemId;
use brain_ops::query::Retriever;
use brain_ops::recall::Lane::{Graph, Lexical, Semantic};
use brain_ops::recall::{
    apply_anchor_abstention, apply_grounded_commit, apply_kind_presence_abstention,
    consensus_collapse, grounded_commit, keyed_membership_ceiling, membership_ceiling,
    order_by_answer_relevance, support, AnswerKind, AnswerShape, CommitLead, GroundedAnswer,
    GroundedOutcome, GroundedValue, Lane, MemoryResult, RecallRequest, DEFAULT_RECALL_RESULTS,
    MAX_RECALL_RESULTS, SUPPORT_CORROBORATED,
};
use brain_ops::recall_trace::{
    dropped_ids_wire, memory_ids_wire, retriever_to_wire_name, RankedItemKind,
    RecallTraceDroppedId,
};
use brain_ops::single::Single;
use brain_ops::statement::{StatementObject, StatementValue, SubjectRef};
use brain_ops::surfaces::capitalized_runs;

const STRONG: f32 = 0.6;

fn single(x: f32) -> Single {
    Single::from_bits(x.to_bits())
}

fn scores(pairs: &[(u128, f32)]) -> HashMap<u128, Single> {
    pairs.iter().map(|(id, s)| (*id, single(*s))).collect()
}

/// Whether two question-bridge scores are too close to tell apart.
fn flat_spread(lo: Single, hi: Single) -> bool {
    f32::from_bits(hi.to_bits()) - f32::from_bits(lo.to_bits()) <= f32::EPSILON
}

#[test]
fn memory_ids_wire_keeps_only_memory_variants() {
    let mem = 0x42u128;
    let ids = vec![
        RankedItemId::Memory(mem),
        RankedItemId::Statement([11u8; 16]),
        RankedItemId::Entity([21u8; 16]),
        RankedItemId::Relation([13u8; 16]),
    ];
    assert_eq!(memory_ids_wire(&ids), vec![mem]);
}

#[test]
fn memory_ids_wire_empty_input_is_empty_output() {
    assert!(memory_ids_wire(&[]).is_empty());
}

#[test]
fn dropped_ids_wire_kind_tags_every_variant() {
    let mem = 0x42u128;
    let sid = [11u8; 16];
    let eid = [22u8; 16];
    let rid = [13u8; 16];
    let ids = vec![
        RankedItemId::Memory(mem),
        RankedItemId::Statement(sid),
        RankedItemId::Entity(eid),
        RankedItemId::Relation(rid),
    ];
    let wire = dropped_ids_wire(&ids);
    assert_eq!(
        wire,
        vec![
            RecallTraceDroppedId {
                kind: RankedItemKind::Memory,
                id: mem,
            },
            RecallTraceDroppedId {
                kind: RankedItemKind::Statement,
                id: u128::from_be_bytes(sid),
            },
            RecallTraceDroppedId {
                kind: RankedItemKind::Entity,
                id: u128::from_be_bytes(eid),
            },
            RecallTraceDroppedId {
                kind: RankedItemKind::Relation,
                id: u128::from_be_bytes(rid),
            },
        ]
    );
}

#[test]
fn dropped_ids_wire_empty_input_is_empty_output() {
    assert!(dropped_ids_wire(&[]).is_empty());
}

#[test]
fn capitalized_runs_extracts_proper_noun_surfaces() {
    assert_eq!(capitalized_runs("who founded NeuraCorp"), vec!["NeuraCorp"]);
    assert_eq!(
        capitalized_runs("did they speak at Web Summit last year"),
        vec!["Web Summit"]
    );
    assert_eq!(
        capitalized_runs("what is NeuraCorp's mission?"),
        vec!["NeuraCorp"]
    );
    assert_eq!(capitalized_runs("Alice met Bob"), vec!["Alice", "Bob"]);
    assert!(capitalized_runs("what are my allergies").is_empty());
    assert!(capitalized_runs("李明 去 哪里").is_empty());
}

#[test]
fn slot_hit_no_anchor_time_not_projected() {
    let empty: Vec<[u8; 16]> = Vec::new();
    let subj = SubjectRef::Entity([23u8; 16]);
    assert!(!slot_hit_projectable(Slot::Time, subj, &empty));
}

#[test]
fn slot_hit_no_anchor_object_and_subject_still_project() {
    let empty: Vec<[u8; 16]> = Vec::new();
    let subj = SubjectRef::Entity([24u8; 16]);
    assert!(slot_hit_projectable(Slot::Object, subj, &empty));
    assert!(slot_hit_projectable(Slot::Subject, subj, &empty));
}

#[test]
fn slot_hit_with_anchor_scopes_every_slot() {
    let id = [25u8; 16];
    let other = [26u8; 16];
    let anchors: Vec<[u8; 16]> = vec![id];
    assert!(slot_hit_projectable(
        Slot::Time,
        SubjectRef::Entity(id),
        &anchors
    ));
    assert!(!slot_hit_projectable(
        Slot::Time,
        SubjectRef::Entity(other),
        &anchors
    ));
    assert!(!slot_hit_projectable(
        Slot::Object,
        SubjectRef::Entity(other),
        &anchors
    ));
}

fn req_with_max(max_results: u32) -> RecallRequest {
    RecallRequest {
        cue_text: String::new(),
        subject_name: String::new(),
        max_results,
        confidence_threshold: single(0.0),
        session_filter: None,
        age_bound_unix_nanos: None,
        as_of_record_time_unix_nanos: None,
        kind_filter: None,
        salience_floor: single(0.0),
        include_edges: false,
        include_graph: false,
        include_text: true,
        request_id: None,
        txn_id: None,
        trace: false,
        act_as: None,
    }
}

#[test]
fn keyed_ceiling_uses_intrinsic_set_not_fuzzy_window() {
    let normalized = req_with_max(DEFAULT_RECALL_RESULTS);
    assert_eq!(
        keyed_membership_ceiling(&normalized, false),
        MAX_RECALL_RESULTS,
        "keyed path with no caller count must not clip to the fuzzy default window"
    );

    let explicit = req_with_max(7);
    assert_eq!(
        keyed_membership_ceiling(&explicit, true),
        7,
        "an explicit max_results is still a caller cap on the keyed path"
    );

    let huge = req_with_max(MAX_RECALL_RESULTS + 100);
    assert_eq!(keyed_membership_ceiling(&huge, true), MAX_RECALL_RESULTS);

    assert_eq!(
        membership_ceiling(&normalized),
        DEFAULT_RECALL_RESULTS,
        "keyless path must keep the fuzzy default window"
    );
    assert_eq!(membership_ceiling(&req_with_max(12)), 12);
}

#[test]
fn retriever_to_wire_name_matches_each_variant() {
    assert_eq!(
        retriever_to_wire_name(Retriever::Semantic),
        Lane::Semantic
    );
    assert_eq!(
        retriever_to_wire_name(Retriever::Lexical),
        Lane::Lexical
    );
    assert_eq!(
        retriever_to_wire_name(Retriever::Graph),
        Lane::Graph
    );
}

fn mr(id: u128, lanes: &[Lane]) -> MemoryResult {
    MemoryResult {
        memory_id: id,
        text: String::new(),
        similarity_score: single(0.0),
        confidence: single(0.0),
        salience: single(0.0),
        kind: MemoryKind::Episodic,
        space_id: [0u8; 16],
        session_id: 0,
        created_at_unix_nanos: 0,
        last_accessed_at_unix_nanos: 0,
        edges: None,
        graph: None,
        contributing_retrievers: lanes.to_vec(),
        fused_score: single(0.0),
        rerank_score: None,
        salience_initial: single(0.0),
        access_count: 0,
        lsn: 0,
        flags: 0,
        consolidated_at_unix_nanos: None,
        occurred_at_unix_nanos: None,
        edges_out_count: 0,
        edges_in_count: 0,
    }
}

#[test]
fn collapse_fires_only_when_unique_consensus_is_also_top() {
    let out = vec![mr(1, &[Semantic, Lexical]), mr(2, &[Semantic])];
    let got = consensus_collapse(out, Some(1));
    assert_eq!(got.len(), 1, "unique consensus that is also top → Single");
    assert_eq!(got[0].memory_id, 1);
}

#[test]
fn no_collapse_when_consensus_is_not_top() {
    let out = vec![mr(1, &[Semantic, Lexical]), mr(2, &[Semantic])];
    let got = consensus_collapse(out, Some(2));
    assert_eq!(
        got.len(),
        2,
        "consensus≠top must not collapse the answer away"
    );
}

#[test]
fn no_collapse_on_tied_max_lane_count() {
    let out = vec![mr(1, &[Semantic, Lexical]), mr(2, &[Semantic, Graph])];
    let got = consensus_collapse(out, Some(1));
    assert_eq!(got.len(), 2, "tied consensus → full set preserved");
}

#[test]
fn no_collapse_when_max_is_single_lane() {
    let out = vec![mr(1, &[Semantic]), mr(2, &[Lexical])];
    let got = consensus_collapse(out, Some(1));
    assert_eq!(got.len(), 2, "single-lane max never collapses");
}

#[test]
fn collapse_empty_in_empty_out() {
    assert!(consensus_collapse(Vec::new(), None).is_empty());
    let out = vec![mr(1, &[Semantic, Lexical]), mr(2, &[Semantic])];
    assert_eq!(consensus_collapse(out, None).len(), 2);
}

#[test]
fn anchor_abstention_keeps_set_when_anchor_present() {
    let members = vec![mr(1, &[Semantic])];
    let kept = apply_anchor_abstention(
        members,
        Some([27u8; 16]),
        &GroundedOutcome::NoAnswer,
        false,
    );
    assert_eq!(kept.len(), 1, "a resolved anchor suppresses this gate");
}

#[test]
fn anchor_abstention_abstains_only_on_zero_support() {
    let members = vec![mr(1, &[Semantic]), mr(2, &[Semantic])];
    let kept = apply_anchor_abstention(members, None, &GroundedOutcome::NoAnswer, false);
    assert!(kept.is_empty(), "nothing belongs (lone passage cosine) → abstain");
}

#[test]
fn anchor_abstention_keeps_supported_set() {
    let members = vec![mr(1, &[Semantic]), mr(2, &[Semantic])];
    let kept = apply_anchor_abstention(members, None, &GroundedOutcome::NoAnswer, true);
    assert_eq!(
        kept.len(),
        2,
        "supported members are returned, never emptied"
    );
}

#[test]
fn kind_presence_keeps_set_when_grounded_answered() {
    let members = vec![mr(1, &[Semantic])];
    let g = GroundedOutcome::Answer(
        GroundedAnswer {
            kind: AnswerKind::Single,
            values: Vec::new(),
        },
        true,
    );
    let kept =
        apply_kind_presence_abstention(members, Some([28u8; 16]), &g, false);
    assert_eq!(kept.len(), 1, "grounded answer present → keep");
}

#[test]
fn kind_presence_keeps_set_without_anchor() {
    let members = vec![mr(1, &[Semantic])];
    let kept = apply_kind_presence_abstention(members, None, &GroundedOutcome::NoAnswer, false);
    assert_eq!(kept.len(), 1, "no anchor → this gate is a no-op");
}

#[test]
fn kind_presence_abstains_on_zero_support() {
    let members = vec![mr(1, &[Semantic])];
    let kept = apply_kind_presence_abstention(
        members,
        Some([29u8; 16]),
        &GroundedOutcome::NoAnswer,
        false,
    );
    assert!(
        kept.is_empty(),
        "subject resolved but nothing supports the cue → None"
    );
}

#[test]
fn kind_presence_keeps_supported_answer() {
    let members = vec![mr(1, &[Graph, Semantic]), mr(2, &[Semantic])];
    let kept = apply_kind_presence_abstention(
        members,
        Some([30u8; 16]),
        &GroundedOutcome::NoAnswer,
        true,
    );
    assert_eq!(kept.len(), 2, "a belonging member → keep the set");
}

#[test]
fn slot_projection_rejects_wrong_subject_when_anchor_resolved() {
    let melanie = [31u8; 16];
    let caroline = [32u8; 16];
    let anchors: Vec<[u8; 16]> = vec![melanie];

    assert!(
        !statement_subject_in_scope(SubjectRef::Entity(caroline), &anchors),
        "a fact about a different named subject must not project"
    );
    assert!(
        statement_subject_in_scope(SubjectRef::Entity(melanie), &anchors),
        "the anchored subject's own fact projects"
    );
    assert!(!statement_subject_in_scope(
        SubjectRef::Memory(1),
        &anchors
    ));
}

#[test]
fn slot_projection_global_when_no_named_anchor() {
    let empty: Vec<[u8; 16]> = Vec::new();
    assert!(statement_subject_in_scope(
        SubjectRef::Entity([33u8; 16]),
        &empty
    ));
    assert!(statement_subject_in_scope(
        SubjectRef::Memory(9),
        &empty
    ));
}

#[test]
fn abstention_stays_honest_after_wrong_subject_rejection() {
    let members = vec![mr(1, &[])];
    let kept = apply_kind_presence_abstention(
        members,
        Some([34u8; 16]),      // Melanie resolved
        &GroundedOutcome::NoAnswer, // no spurious wrong-subject answer
        false,                      // nothing belongs (lone off-cue fact)
    );
    assert!(
        kept.is_empty(),
        "no wrong-subject Answer + zero support → honest abstention"
    );
}

#[test]
fn answer_relevance_leads_over_higher_cosine_topical_neighbor() {
    let out = vec![mr(1, &[Semantic]), mr(2, &[Semantic]), mr(3, &[Semantic])];
    let hype: HashMap<u128, Single> = scores(&[(1u128, 0.30), (2u128, 0.80), (3u128, 0.25)]);
    let cos: HashMap<u128, Single> = scores(&[(1u128, 0.90), (2u128, 0.50), (3u128, 0.40)]);
    let got = order_by_answer_relevance(out, &hype, &cos, &flat_spread);
    assert_eq!(got.len(), 3, "recall untouched — only order changes");
    assert_eq!(
        got[0].memory_id, 2,
        "the answering memory leads over the higher-cosine topical neighbor"
    );
}

#[test]
fn answer_relevance_flat_hype_falls_back_to_cosine_order() {
    let out = vec![mr(1, &[Semantic]), mr(2, &[Semantic]), mr(3, &[Semantic])];
    let cos: HashMap<u128, Single> = scores(&[(1u128, 0.90), (2u128, 0.70), (3u128, 0.40)]);
    let got = order_by_answer_relevance(out, &HashMap::new(), &cos, &flat_spread);
    assert_eq!(
        got.iter().map(|m| m.memory_id).collect::<Vec<_>>(),
        vec![1, 2, 3],
        "empty HyPE preserves the incoming order"
    );

    let out = vec![mr(3, &[Semantic]), mr(1, &[Semantic])];
    let even: HashMap<u128, Single> = scores(&[(3u128, 0.5), (1u128, 0.5)]);
    let got = order_by_answer_relevance(out, &even, &cos, &flat_spread);
    assert_eq!(
        got.iter().map(|m| m.memory_id).collect::<Vec<_>>(),
        vec![3, 1],
        "flat HyPE preserves the incoming order"
    );
}

#[test]
fn answer_relevance_cosine_breaks_hype_ties() {
    let out = vec![mr(1, &[Semantic]), mr(2, &[Semantic]), mr(3, &[Semantic])];
    let hype: HashMap<u128, Single> = scores(&[(1u128, 0.80), (2u128, 0.80), (3u128, 0.40)]);
    let cos: HashMap<u128, Single> = scores(&[(1u128, 0.30), (2u128, 0.60), (3u128, 0.90)]);
    let got = order_by_answer_relevance(out, &hype, &cos, &flat_spread);
    assert_eq!(
        got.iter().map(|m| m.memory_id).collect::<Vec<_>>(),
        vec![2, 1, 3],
        "equal answer-lead → higher cosine first; the low-lead member stays last"
    );
}

fn gv(text: &str, src: u128, match_score: f32) -> GroundedValue {
    GroundedValue {
        predicate: "brain:works_at".to_string(),
        object: StatementObject::Value(StatementValue::Text(
            text.to_string(),
        )),
        confidence: single(1.0),
        source_memory: Some(src),
        match_score: single(match_score),
        recency: 0,
    }
}

fn outcome(
    kind: AnswerKind,
    values: Vec<GroundedValue>,
    anchor_scoped: bool,
) -> GroundedOutcome {
    GroundedOutcome::Answer(GroundedAnswer { kind, values }, anchor_scoped)
}

fn sup(corroborated: &[u128]) -> impl Fn(u128) -> u8 + '_ {
    move |id| {
        if corroborated.contains(&id) {
            SUPPORT_CORROBORATED
        } else {
            1
        }
    }
}

#[test]
fn grounded_commit_fires_on_corroborated_anchor_scoped_strong_single() {
    let g = outcome(AnswerKind::Single, vec![gv("OpenAI", 7, 0.7)], true);
    let lead = grounded_commit(&g, &sup(&[7])).expect("corroborated strong single commits");
    assert_eq!(lead.ids, vec![7]);
    assert_eq!(lead.shape, AnswerShape::Single);
}

#[test]
fn grounded_commit_declines_uncorroborated_single() {
    let g = outcome(AnswerKind::Single, vec![gv("OpenAI", 7, 0.7)], true);
    assert!(
        grounded_commit(&g, &sup(&[])).is_none(),
        "an uncorroborated grounded value must not commit"
    );
}

#[test]
fn grounded_commit_declines_unscoped_answer() {
    let g = outcome(AnswerKind::Single, vec![gv("OpenAI", 7, 0.7)], false);
    assert!(
        grounded_commit(&g, &sup(&[7])).is_none(),
        "an unscoped grounded value must not commit"
    );
}

#[test]
fn grounded_commit_declines_weak_match() {
    let g = outcome(AnswerKind::Single, vec![gv("OpenAI", 7, 0.55)], true);
    assert!(
        grounded_commit(&g, &sup(&[7])).is_none(),
        "a floor-grazing match must not commit"
    );
}

#[test]
fn grounded_commit_declines_no_answer() {
    assert!(grounded_commit(&GroundedOutcome::NoAnswer, &sup(&[])).is_none());
}

#[test]
fn grounded_commit_set_commits_when_a_member_is_corroborated() {
    let g = outcome(
        AnswerKind::Several,
        vec![gv("topology", 4, 0.7), gv("category theory", 9, 0.7)],
        true,
    );
    let lead = grounded_commit(&g, &sup(&[4])).expect("corroborated strong set commits");
    assert_eq!(lead.ids, vec![4, 9], "both members lead, in grounded order");
    assert_eq!(lead.shape, AnswerShape::Many);
}

#[test]
fn grounded_commit_of_a_lone_set_member_is_single() {
    let g = outcome(AnswerKind::Several, vec![gv("topology", 4, 0.7)], true);
    let lead = grounded_commit(&g, &sup(&[4])).expect("corroborated lone member commits");
    assert_eq!(lead.ids, vec![4]);
    assert_eq!(lead.shape, AnswerShape::Single);
    assert!(grounded_commit(&g, &sup(&[])).is_none());
}

#[test]
fn grounded_commit_declines_uncorroborated_set() {
    let g = outcome(
        AnswerKind::Several,
        vec![gv("topology", 4, 0.7), gv("category theory", 9, 0.7)],
        true,
    );
    assert!(
        grounded_commit(&g, &sup(&[])).is_none(),
        "an uncorroborated set must not commit"
    );
}

#[test]
fn apply_grounded_commit_leads_and_retains_episodic_below() {
    let out = vec![mr(1, &[Semantic]), mr(2, &[Semantic]), mr(3, &[Semantic])];
    let lead = CommitLead {
        ids: vec![2],
        shape: AnswerShape::Single,
    };
    let hype: HashMap<u128, Single> = scores(&[(1u128, 0.20), (3u128, 0.70)]);
    let cos: HashMap<u128, Single> = scores(&[(1u128, 0.90), (3u128, 0.40)]);
    let got = apply_grounded_commit(out, &lead, &hype, &cos, &flat_spread);
    assert_eq!(
        got.iter().map(|m| m.memory_id).collect::<Vec<_>>(),
        vec![2, 3, 1],
        "committed lead first, then the answer-relevance-ordered episodic set"
    );
}

#[test]
fn apply_grounded_commit_set_lead_keeps_grounded_order() {
    let out = vec![
        mr(1, &[Semantic]),
        mr(4, &[Semantic]),
        mr(9, &[Semantic]),
        mr(2, &[Semantic]),
    ];
    let lead = CommitLead {
        ids: vec![9, 4],
        shape: AnswerShape::Many,
    };
    let got = apply_grounded_commit(out, &lead, &HashMap::new(), &HashMap::new(), &flat_spread);
    assert_eq!(
        got.iter().map(|m| m.memory_id).take(2).collect::<Vec<_>>(),
        vec![9, 4],
        "set members lead in grounded order"
    );
    assert_eq!(got.len(), 4, "episodic members 1 and 2 retained below");
}

#[test]
fn support_counts_each_independent_lane_once() {
    let none: HashSet<u128> = HashSet::new();
    let no_hype: HashMap<u128, Single> = HashMap::new();
    assert_eq!(support(1, &[], false, &none, &no_hype), 0);
    assert_eq!(support(1, &[], true, &none, &no_hype), 1);
    assert_eq!(support(1, &[Semantic], false, &none, &no_hype), 0);
    assert_eq!(support(1, &[Semantic], true, &none, &no_hype), 1);
    assert_eq!(
        support(1, &[Semantic, Lexical, Graph], false, &none, &no_hype),
        2
    );
    assert_eq!(
        support(1, &[Semantic, Lexical, Graph], true, &none, &no_hype),
        3
    );
}

#[test]
fn support_counts_grounded_and_hype_lanes() {
    let grounded: HashSet<u128> = [1u128].into_iter().collect();
    let no_grounded: HashSet<u128> = HashSet::new();
    let at_strong: HashMap<u128, Single> = scores(&[(1u128, STRONG)]);
    let weak: HashMap<u128, Single> = scores(&[(1u128, STRONG - 0.1)]);
    let empty: HashMap<u128, Single> = HashMap::new();
    assert_eq!(support(1, &[], false, &grounded, &empty), 1);
    assert_eq!(support(1, &[], false, &no_grounded, &at_strong), 1);
    assert_eq!(support(1, &[], false, &no_grounded, &weak), 0);
    assert!(support(1, &[Lexical], false, &grounded, &empty) >= SUPPORT_CORROBORATED);
    assert!(support(1, &[], true, &grounded, &empty) >= SUPPORT_CORROBORATED);
}

#[test]
fn support_grounded_only_is_not_corroborated() {
    let grounded: HashSet<u128> = [5u128].into_iter().collect();
    let no_hype: HashMap<u128, Single> = HashMap::new();
    assert_eq!(support(5, &[], false, &grounded, &no_hype), 1);
    assert!(support(5, &[], false, &grounded, &no_hype) < SUPPORT_CORROBORATED);
}

#[test]
fn cue_scoped_object_set_folds_cross_predicate_scopes_and_dedups() {
    let x = [1u8; 16];
    let y = [2u8; 16];
    let hit = |subject: [u8; 16], predicate: &str, object: &str, score: f32| SlotHit {
        slot: Slot::Object,
        score: single(score),
        statement: Some(SlotStatement {
            subject: SubjectRef::Entity(subject),
            tombstoned: false,
            superseded: false,
        }),
        projected: Some(GroundedValue {
            predicate: predicate.to_string(),
            object: StatementObject::Value(StatementValue::Text(object.to_string())),
            confidence: single(0.9),
            source_memory: None,
            match_score: single(score),
            recency: 0,
        }),
    };
    let anchors = vec![x];
    // Hits arrive strongest first. cricket is highest but about the wrong
    // subject; chess is below the floor; the second soccer repeats a value.
    let hits = vec![
        hit(y, "test:plays", "cricket", 0.90),
        hit(x, "test:plays", "soccer", 0.80),
        hit(x, "test:enjoys", "tennis", 0.72),
        hit(x, "test:plays", "soccer", 0.70),
        hit(x, "test:plays", "chess", 0.40),
    ];
    let values = cue_scoped_object_set(hits, &anchors, single(STRONG));
    let objs: Vec<String> = values
        .iter()
        .filter_map(|v| match &v.object {
            StatementObject::Value(StatementValue::Text(t)) => Some(t.clone()),
            _ => None,
        })
        .collect();
    assert_eq!(
        objs,
        vec!["soccer".to_string(), "tennis".to_string()],
        "cross-predicate on-cue folds in; off-cue, wrong-subject and duplicate excluded"
    );
}
