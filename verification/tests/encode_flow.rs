use brain_ops::encode::{
    content_hash, elapsed_us, hashed_operation, hex_short, now_unix_nanos, pending_stages_of,
    reconstruct_encode_response, replay_in_txn, stamp_of, BufferedRequest, CacheLookup,
    EncodePlace, EncodeRequest, EncodeResponse, PendingStage, WaitMode, WriteAck, VECTOR_DIM,
};
use brain_ops::encode_flow::{
    encode_next, encode_start, encode_traced, encode_txn_next, Derived, EncodeCall, EncodeNeed,
    EncodeRead, EncodeRun, TxnNeed, TxnRead,
};
use brain_ops::encode_graph::{
    build_encode_artifacts, EncodeStageGraph, EncodeTraceArtifacts, EncodeTraceDedup,
    EncodeTraceStageStatus,
};
use brain_ops::encode_trace::{
    attach_artifacts, drain_next, drain_stage, drain_start, empty_artifact, find_stage, open_stages,
    stage_detail_from_env, stage_kind_name, stage_status_from_env, DrainEvent, DrainStep,
    EncodeTraceStage,
};
use brain_ops::error::{ExecError, OpError, WriterError};
use brain_ops::events::{
    EventType, ExtractorStage, MemoryKind, StageKind, StageOutcome, StagePayload,
};
use brain_ops::recall::{EnrichedEntity, GraphEnrichment};
use brain_ops::scope::RowScope;
use brain_ops::single::Single;
use brain_ops::subscribe::EventEnvelope;
use brain_ops::write::{Phase, PhaseAck, WriteId};

fn single(x: f32) -> Single {
    Single::from_bits(x.to_bits())
}

fn request() -> EncodeRequest {
    EncodeRequest {
        text: "hello".into(),
        session_id: 4,
        request_id: [0xAB; 16],
        txn_id: None,
        occurred_at_unix_nanos: Some(77),
        allow_duplicates: false,
        wait: WaitMode::Acked,
    }
}

fn place() -> EncodePlace {
    EncodePlace { space_id: [9; 16], embedding_model_fp: [3; 16] }
}

fn call(req: EncodeRequest) -> EncodeCall {
    EncodeCall {
        req,
        place: place(),
        caller: RowScope { namespace_id: 2, space_id_bytes: [9; 16] },
        space_string: Some("home".into()),
        request_hash: [1; 32],
    }
}

fn ack(id: u128) -> WriteAck {
    WriteAck {
        phase_acks: vec![PhaseAck::UpsertedMemory(id)],
        lsn_first: 40,
        pending_stages: vec![
            PendingStage { memory_id: id, stage_kind: StageKind::Extractor },
            PendingStage { memory_id: id + 1, stage_kind: StageKind::Hype },
            PendingStage { memory_id: id, stage_kind: StageKind::Hype },
        ],
    }
}

fn answered(need: EncodeNeed) -> Result<EncodeResponse, OpError> {
    match need {
        EncodeNeed::Answer(r) => r,
        other => panic!("{other:?}"),
    }
}

#[test]
fn clocks() {
    assert_eq!(stamp_of(None), 0);
    assert_eq!(stamp_of(Some(5)), 5);
    assert_eq!(stamp_of(Some(u128::MAX)), u64::MAX);
    assert!(now_unix_nanos() > 1_600_000_000_000_000_000);
    assert_eq!(elapsed_us(12), 12);
    assert_eq!(elapsed_us(u128::MAX), u64::MAX);
}

#[test]
fn short_ids_and_digests() {
    let mut id = [0u8; 16];
    id[0] = 0x0A;
    id[3] = 0xFF;
    assert_eq!(hex_short(&id), "0a0000ff");
    // The digest of no bytes.
    assert_eq!(
        content_hash("")[..8],
        [0xaf, 0x13, 0x49, 0xb9, 0xf5, 0xf9, 0xa1, 0xa6]
    );
    assert_eq!(content_hash("hello"), *blake3::hash(b"hello").as_bytes());
}

#[test]
fn a_plain_write() {
    let c = call(request());
    let mut run = EncodeRun::new();
    assert!(matches!(encode_start(&c.req), EncodeNeed::Validation));
    let need = encode_next(&c, &mut run, EncodeRead::Validation(Ok(())), 1, 100);
    assert!(matches!(need, EncodeNeed::Remembered));
    let need = encode_next(&c, &mut run, EncodeRead::Remembered(CacheLookup::Miss), 1, 100);
    assert!(matches!(need, EncodeNeed::Embedding));
    let vector = vec![single(0.5), single(-0.5)];
    let need = encode_next(&c, &mut run, EncodeRead::Embedding(Ok(vector)), 1, 100);
    match need {
        EncodeNeed::Duplicate { content_hash: h } => assert_eq!(h, content_hash("hello")),
        other => panic!("{other:?}"),
    }
    let need = encode_next(&c, &mut run, EncodeRead::Duplicate(Ok(None)), 1, 100);
    assert!(matches!(need, EncodeNeed::Reservation));
    let need = encode_next(&c, &mut run, EncodeRead::Reservation(Ok((6, 2))), 1, 100);
    match need {
        EncodeNeed::Submission(w) => {
            assert!(matches!(w.write_id, WriteId::Request { request_id: [0xAB, ..], .. }));
            assert_eq!(w.namespace_id, Some(2));
            assert_eq!(w.space_string.as_deref(), Some("home"));
            assert_eq!(w.request_hash, Some([1; 32]));
            match w.phase {
                Phase::UpsertMemory { id, text, vector, arena_slot, content_hash: h, .. } => {
                    assert_eq!(id, 6);
                    assert_eq!(text, "hello");
                    assert_eq!(vector, vec![single(0.5), single(-0.5)]);
                    assert_eq!(arena_slot, 2);
                    assert_eq!(h, Some(content_hash("hello")));
                }
                other => panic!("{other:?}"),
            }
        }
        other => panic!("{other:?}"),
    }
    let need = encode_next(&c, &mut run, EncodeRead::Submission(Ok(ack(6))), 1, 200);
    let r = answered(need).unwrap();
    assert_eq!(r.memory_id, 6);
    assert_eq!(r.lsn, 40);
    assert_eq!(r.created_at_unix_nanos, 100);
    assert_eq!(r.pending_stages, vec![StageKind::Extractor, StageKind::Hype]);
    assert_eq!(r.salience, single(0.5));
    assert_eq!(r.kind, MemoryKind::Episodic);
    assert!(r.trace.is_none());
    assert!(run.stages.is_empty());
}

#[test]
fn duplicates_and_replays_write_nothing() {
    let c = call(request());
    let mut run = EncodeRun::new();
    let r = answered(encode_next(&c, &mut run, EncodeRead::Duplicate(Ok(Some(9))), 1, 1)).unwrap();
    assert!(r.was_deduplicated);
    assert_eq!((r.memory_id, r.lsn, r.created_at_unix_nanos), (9, 0, 0));

    let hit = EncodeRead::Remembered(CacheLookup::Hit(ack(6)));
    let (kept, id) = match encode_next(&c, &mut run, hit, 1, 1) {
        EncodeNeed::Created { ack, memory_id } => (ack, memory_id),
        other => panic!("{other:?}"),
    };
    assert_eq!(id, 6);
    let created = EncodeRead::Created { ack: kept, created_at: Ok(Some(88)) };
    let r = answered(encode_next(&c, &mut run, created, 1, 1)).unwrap();
    assert_eq!((r.memory_id, r.lsn, r.created_at_unix_nanos), (6, 40, 88));
    assert!(!r.was_deduplicated);
    let unread = Err(OpError::Internal("unread".into()));
    let created = EncodeRead::Created { ack: ack(6), created_at: unread };
    let e = answered(encode_next(&c, &mut run, created, 1, 1)).unwrap_err();
    assert!(matches!(e, OpError::Internal(m) if m == "unread"));

    let conflict = EncodeRead::Remembered(CacheLookup::Conflict);
    assert_eq!(
        format!("{:?}", answered(encode_next(&c, &mut run, conflict, 1, 1)).unwrap_err()),
        "Conflict(\"encode request_id replay with different params: request_id=abababab\")"
    );
    let odd = WriteAck { phase_acks: vec![PhaseAck::Linked], ..ack(6) };
    assert_eq!(
        format!("{:?}", reconstruct_encode_response(&request(), &odd, None, &place()).unwrap_err()),
        "Internal(\"idempotency cache hit but phase_acks[0] is not UpsertedMemory\")"
    );
}

#[test]
fn the_operation_that_is_digested() {
    let op = hashed_operation(&request(), &place());
    assert_eq!(op.request_id, [0xAB; 16]);
    assert_eq!((op.session_id, op.text.as_str()), (4, "hello"));
    assert_eq!(op.kind, MemoryKind::Episodic);
    assert_eq!(op.vector, vec![single(0.0); VECTOR_DIM]);
    assert_eq!(op.salience_initial, single(0.5));
    assert_eq!((op.fingerprint, op.space_id), ([3; 16], [9; 16]));
    assert!(op.edges.is_empty() && op.deduplicate);
    assert_eq!(op.content_hash, content_hash("hello"));
    let twice = EncodeRequest { allow_duplicates: true, ..request() };
    assert!(!hashed_operation(&twice, &place()).deduplicate);
}

#[test]
fn duplicates_may_be_allowed() {
    let c = call(EncodeRequest { allow_duplicates: true, ..request() });
    let mut run = EncodeRun::new();
    let read = EncodeRead::Embedding(Ok(vec![single(1.0)]));
    assert!(matches!(encode_next(&c, &mut run, read, 1, 1), EncodeNeed::Reservation));
    match encode_next(&c, &mut run, EncodeRead::Reservation(Ok((6, 2))), 1, 1) {
        EncodeNeed::Submission(w) => {
            assert!(matches!(w.phase, Phase::UpsertMemory { content_hash: None, .. }))
        }
        other => panic!("{other:?}"),
    }
}

#[test]
fn failures_end_a_call() {
    let c = call(request());
    let mut run = EncodeRun::new();
    let e = encode_next(&c, &mut run, EncodeRead::Embedding(Err("gone".into())), 1, 1);
    assert!(matches!(
        answered(e).unwrap_err(),
        OpError::ExecError(ExecError::EmbedFailed(m)) if m == "gone"
    ));
    let e = encode_next(&c, &mut run, EncodeRead::Reservation(Err(WriterError::Overloaded)), 1, 1);
    assert!(matches!(
        answered(e).unwrap_err(),
        OpError::ExecError(ExecError::WriterFailed(WriterError::Overloaded))
    ));
    let bad = Err(OpError::InvalidRequest("empty".into()));
    let e = encode_next(&c, &mut run, EncodeRead::Validation(bad), 1, 1);
    assert!(matches!(answered(e).unwrap_err(), OpError::InvalidRequest(_)));
}

fn literal_id(_: [u8; 16], _: &str, _: &str) -> [u8; 16] {
    [5; 16]
}

#[test]
fn a_traced_write() {
    let c = call(EncodeRequest { wait: WaitMode::Derived, ..request() });
    let mut run = EncodeRun::new();
    encode_next(&c, &mut run, EncodeRead::Validation(Ok(())), 11, 100);
    encode_next(&c, &mut run, EncodeRead::Embedding(Ok(vec![single(1.0)])), 12, 100);
    encode_next(&c, &mut run, EncodeRead::Reservation(Ok((6, 2))), 13, 100);
    let need = encode_next(&c, &mut run, EncodeRead::Submission(Ok(ack(6))), 14, 200);
    let (kept, mut remaining) = match need {
        EncodeNeed::Derivation { ack, pending } => (ack, pending),
        other => panic!("{other:?}"),
    };
    let names: Vec<_> = run.stages.iter().map(|s| s.name.as_str()).collect();
    assert_eq!(names, vec!["validate", "embed", "reserve", "persist"]);
    let details: Vec<_> = run.stages.iter().map(|s| s.detail.as_str()).collect();
    assert_eq!(details, vec!["", "dim=1", "memory_id=6", "lsn=40"]);
    assert_eq!(run.stages[2].latency_us, 13);
    let record = run.stages[3].artifact.as_ref().unwrap().record.unwrap();
    assert_eq!(record.memory_id, 6u128.to_be_bytes());
    assert_eq!((record.vector_dim, record.text_len, record.lsn), (1, 5, 40));
    assert_eq!(record.occurred_at_unix_nanos, 77);

    let mut stages = Vec::new();
    stages.extend(drain_stage(&mut remaining, 6, &completed(6, StageKind::Extractor), 15));
    stages.extend(open_stages(&remaining));
    let derived = Derived {
        stages,
        artifacts: EncodeTraceArtifacts {
            entities: Vec::new(),
            statements: Vec::new(),
            relations: Vec::new(),
            indexes: Vec::new(),
            dedup: EncodeTraceDedup { was_deduplicated: false, matched_memory_id: None },
        },
        keyword_fields: vec!["hello".into()],
        hype_questions: vec!["who?".into()],
        total_latency_us: 99,
    };
    let r = encode_traced(&c, run, &kept, derived, &literal_id);
    let t = r.trace.unwrap();
    assert_eq!(t.total_latency_us, 99);
    let at = |name: &str| &t.stages[find_stage(&t.stages, name).unwrap()];
    assert!(at("extractor").artifact.as_ref().unwrap().graph.is_some());
    let persisted = at("persist").artifact.as_ref().unwrap();
    assert_eq!(persisted.keyword_fields, vec!["hello".to_string()]);
    assert!(persisted.record.is_some());
    assert_eq!(at("hype").status, EncodeTraceStageStatus::Timeout);
    assert_eq!(at("hype").detail, "stage did not complete within the trace wait window");
    assert_eq!(
        at("hype").artifact.as_ref().unwrap().hype_questions,
        vec!["who?".to_string()]
    );
}

fn completed(memory_id: u128, kind: StageKind) -> EventEnvelope {
    EventEnvelope {
        lsn: 1,
        event_type: EventType::StageCompleted,
        memory_id,
        session_id: 0,
        kind: MemoryKind::Episodic,
        salience: single(0.0),
        timestamp_unix_nanos: 0,
        text: None,
        graph_payload: None,
        edge_payload: None,
        stage_kind: Some(kind),
        stage_outcome: Some(StageOutcome::Written),
        stage_payload: None,
        space_id: [0; 16],
        vector: None,
    }
}

#[test]
fn draining_takes_only_own_stages() {
    let mut remaining = vec![StageKind::AutoEdge, StageKind::Hype];
    assert!(drain_stage(&mut remaining, 6, &completed(7, StageKind::Hype), 1).is_none());
    assert!(drain_stage(&mut remaining, 6, &completed(6, StageKind::Extractor), 1).is_none());
    let other = EventEnvelope { event_type: EventType::Encoded, ..completed(6, StageKind::Hype) };
    assert!(drain_stage(&mut remaining, 6, &other, 1).is_none());
    assert_eq!(remaining.len(), 2);
    let s = drain_stage(&mut remaining, 6, &completed(6, StageKind::Hype), 3).unwrap();
    assert_eq!(s.name, "hype");
    assert_eq!(s.latency_us, 3);
    assert_eq!(remaining, vec![StageKind::AutoEdge]);
}

#[test]
fn the_wait_for_stages_ends() {
    assert!(matches!(drain_start(&Vec::new()), DrainStep::Done(s) if s.is_empty()));
    let kinds = [StageKind::Hype, StageKind::Extractor, StageKind::AutoEdge, StageKind::Extractor];
    let mut remaining = kinds.to_vec();
    assert!(matches!(drain_start(&remaining), DrainStep::Wait(None)));
    let own = |kind| DrainEvent::Received(completed(6, kind));
    // The first of a kind goes, and the others keep their order.
    match drain_next(&mut remaining, 6, own(StageKind::Extractor), 4) {
        DrainStep::Wait(Some(s)) => assert_eq!((s.name.as_str(), s.latency_us), ("extractor", 4)),
        other => panic!("{other:?}"),
    }
    assert_eq!(remaining, vec![StageKind::Hype, StageKind::AutoEdge, StageKind::Extractor]);
    let foreign = DrainEvent::Received(completed(7, StageKind::Hype));
    assert!(matches!(drain_next(&mut remaining, 6, foreign, 4), DrainStep::Wait(None)));
    assert!(matches!(drain_next(&mut remaining, 6, DrainEvent::Lagged, 4), DrainStep::Wait(None)));
    for end in [DrainEvent::Closed, DrainEvent::TimedOut] {
        match drain_next(&mut remaining, 6, end, 4) {
            DrainStep::Done(open) => {
                let names: Vec<_> = open.iter().map(|s| s.name.as_str()).collect();
                assert_eq!(names, vec!["hype", "auto_edge", "extractor"]);
                assert!(open.iter().all(|s| s.status == EncodeTraceStageStatus::Timeout));
            }
            other => panic!("{other:?}"),
        }
    }
    let mut last = vec![StageKind::Hype];
    match drain_next(&mut last, 6, own(StageKind::Hype), 9) {
        DrainStep::Done(s) => assert_eq!((s.len(), s[0].latency_us), (1, 9)),
        other => panic!("{other:?}"),
    }
    assert!(last.is_empty());
}

#[test]
fn stage_texts() {
    assert_eq!(stage_kind_name(StageKind::TemporalEdge), "temporal_edge");
    let env = |payload, outcome| EventEnvelope {
        stage_payload: Some(payload),
        stage_outcome: Some(outcome),
        ..completed(6, StageKind::Extractor)
    };
    let extractor = |error: &str| {
        StagePayload::Extractor(ExtractorStage {
            entity_count: 2,
            statement_count: 3,
            relation_count: 0,
            audit_status: "Ok".into(),
            error_message: error.into(),
        })
    };
    assert_eq!(
        stage_detail_from_env(&env(extractor(""), StageOutcome::Written)),
        "entities=2 statements=3 relations=0 audit=Ok"
    );
    let failed = env(extractor("timeout"), StageOutcome::Failed);
    assert_eq!(
        stage_detail_from_env(&failed),
        "entities=2 statements=3 relations=0 audit=Ok error=timeout"
    );
    assert_eq!(stage_status_from_env(&failed), EncodeTraceStageStatus::Failed);
    let auto = env(StagePayload::AutoEdge { edges_written: 4 }, StageOutcome::Empty);
    assert_eq!(stage_detail_from_env(&auto), "edges=4");
    assert_eq!(stage_status_from_env(&auto), EncodeTraceStageStatus::Done);
}

#[test]
fn artifacts_without_lists_change_nothing() {
    let stage = |name: &str| EncodeTraceStage {
        name: name.into(),
        status: EncodeTraceStageStatus::Done,
        latency_us: 1,
        detail: String::new(),
        artifact: None,
    };
    let graph = EncodeStageGraph { nodes: Vec::new(), edges: Vec::new() };
    let out =
        attach_artifacts(vec![stage("persist"), stage("hype")], graph, Vec::new(), Vec::new());
    assert!(out.iter().all(|s| s.artifact.is_none()));
    assert!(empty_artifact().vector.is_empty());
}

#[test]
fn artifacts_of_a_write() {
    let enrichment = GraphEnrichment {
        entities: vec![EnrichedEntity {
            id: [1; 16],
            name: "Priya".into(),
            type_qname: "brain:person".into(),
        }],
        statements: Vec::new(),
        relations: Vec::new(),
    };
    let a = build_encode_artifacts(Some(enrichment), true, false, false, Some(6));
    assert_eq!(a.entities[0].name, "Priya");
    assert_eq!(a.dedup.matched_memory_id, Some(6u128.to_be_bytes()));
    assert!(!a.dedup.was_deduplicated);
}

#[test]
fn stages_of_a_memory() {
    assert_eq!(
        pending_stages_of(&ack(6).pending_stages, 7),
        vec![StageKind::Hype]
    );
}

#[test]
fn a_buffered_write() {
    let c = call(EncodeRequest { txn_id: Some([2; 16]), ..request() });
    assert!(matches!(encode_start(&c.req), EncodeNeed::Transaction([2, ..])));
    let txn = [2u8; 16];
    let mut run = EncodeRun::new();
    let n = encode_txn_next(&c, &txn, &mut run, TxnRead::Validation(Ok(())), 5);
    assert!(matches!(n, TxnNeed::Active));
    let n = encode_txn_next(&c, &txn, &mut run, TxnRead::Active(Ok(())), 5);
    assert!(matches!(n, TxnNeed::Prior));
    let n = encode_txn_next(&c, &txn, &mut run, TxnRead::Prior(Ok(None)), 5);
    assert!(matches!(n, TxnNeed::Capacity));
    let n = encode_txn_next(&c, &txn, &mut run, TxnRead::Capacity(Ok(())), 5);
    assert!(matches!(n, TxnNeed::Embedding));
    let n = encode_txn_next(&c, &txn, &mut run, TxnRead::Embedding(Ok(vec![single(1.0)])), 5);
    assert!(matches!(n, TxnNeed::Reservation));
    match encode_txn_next(&c, &txn, &mut run, TxnRead::Reservation(Ok(8)), 5) {
        TxnNeed::Buffer(b) => {
            assert_eq!(b.memory_id, 8);
            assert_eq!(b.text, "hello");
            assert_eq!(b.text_len, 5);
            assert_eq!(b.vector, vec![single(1.0)]);
            assert_eq!(b.request_hash, [1; 32]);
        }
        other => panic!("{other:?}"),
    }
    match encode_txn_next(&c, &txn, &mut run, TxnRead::Buffered(Ok(())), 6) {
        TxnNeed::Answer(Ok(r)) => {
            assert_eq!((r.memory_id, r.lsn, r.created_at_unix_nanos), (8, 0, 5));
            assert!(r.pending_stages.is_empty());
        }
        other => panic!("{other:?}"),
    }
}

#[test]
fn buffered_replays() {
    let hash = [1u8; 32];
    let same = BufferedRequest { request_hash: hash, memory_id: Some(8) };
    assert_eq!(replay_in_txn(None, &hash, &[2; 16]).unwrap(), None);
    assert_eq!(replay_in_txn(Some(&same), &hash, &[2; 16]).unwrap(), Some(8));
    let other = BufferedRequest { request_hash: [0; 32], memory_id: Some(8) };
    assert_eq!(
        format!("{:?}", replay_in_txn(Some(&other), &hash, &[2; 16]).unwrap_err()),
        "Conflict(\"encode in-txn request_id replay with different params: txn=02020202\")"
    );
    let c = call(request());
    let mut run = EncodeRun::new();
    match encode_txn_next(&c, &[2; 16], &mut run, TxnRead::Prior(Ok(Some(same))), 5) {
        TxnNeed::Answer(Ok(r)) => {
            assert_eq!((r.memory_id, r.created_at_unix_nanos), (8, 0))
        }
        other => panic!("{other:?}"),
    }
    let unread = TxnRead::Prior(Err(OpError::Internal("unread".into())));
    match encode_txn_next(&c, &[2; 16], &mut run, unread, 5) {
        TxnNeed::Answer(Err(OpError::Internal(m))) => assert_eq!(m, "unread"),
        other => panic!("{other:?}"),
    }
}
