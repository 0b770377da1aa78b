use brain_ops::error::OpError;
use brain_ops::evidence::evidence_ids;
use brain_ops::scope::RowScope;
use brain_ops::single::Single;
use brain_ops::statement::{
    copy_object, decode_statement_cursor, encode_statement_cursor, split_qname,
    statement_list_filter_signature, validate_predicate_qname, EvidenceRef, EvidenceRefWire,
    Statement, StatementCreateRequest, StatementKind, StatementListCursor, StatementListRequest,
    StatementObject, StatementSupersedeRequest, StatementTombstoneRequest, StatementValue,
    SubjectRef, RETRACT_GRACE_NANOS,
};
use brain_ops::statement_ops::{
    admit_supersede, build_statement_from_create, check_statement_request, created_statement_id,
    decode_tombstone_reason, finish_statement_create, finish_statement_retract,
    finish_statement_supersede, finish_statement_tombstone, hash_statement_create_request,
    hash_statement_object, hash_statement_retract_request, hash_statement_tombstone_request,
    plan_statement_create, plan_statement_retract, plan_statement_supersede,
    plan_statement_tombstone, resolve_predicate, superseding_statement_id, PredicateLookup,
};
use brain_ops::statement_reads::{
    admit_history, admit_statement_get, admit_statement_list, empty_statement_list, history_frame,
    plan_statement_list, project_rows, project_view, statement_get_response, statement_list_frame,
    ChainWalk, HistoryPage, ListPredicate, PredicateName, RowText, StatementHistoryRequest,
    StatementPage, StatementRow,
};
use brain_ops::write::{Ack, Phase, PhaseAck, TombstoneTarget, WriteId};

const NOW: u64 = 1_700_000_000_000_000_500;

fn single(x: f32) -> Single {
    Single::from_bits(x.to_bits())
}

fn caller() -> RowScope {
    RowScope { namespace_id: 3, space_id_bytes: [9; 16] }
}

fn stranger() -> RowScope {
    RowScope { namespace_id: 4, space_id_bytes: [9; 16] }
}

fn ack(phase: PhaseAck) -> Ack {
    Ack { phase, shown: "Shown".into() }
}

fn shown(e: OpError) -> String {
    match e {
        OpError::InvalidRequest(m) => m,
        other => format!("{other:?}"),
    }
}

fn create() -> StatementCreateRequest {
    StatementCreateRequest {
        kind: StatementKind::Fact,
        subject: [1; 16],
        predicate: "test:role".into(),
        object: StatementObject::Value(StatementValue::Text("x".into())),
        confidence: single(0.9),
        evidence: EvidenceRefWire::Inline(vec![[5; 16]]),
        extractor_id: 7,
        valid_from_unix_nanos: 0,
        valid_to_unix_nanos: 0,
        event_at_unix_nanos: 0,
        schema_version: 2,
        session_id: 11,
        request_id: [8; 16],
        act_as: None,
    }
}

fn statement() -> Statement {
    build_statement_from_create(&create(), 42, NOW, StatementKind::Fact, [0x5A; 16]).unwrap()
}

#[test]
fn predicate_names_are_qualified() {
    assert!(validate_predicate_qname("a:b").is_ok());
    assert_eq!(shown(validate_predicate_qname("").unwrap_err()), "predicate must be non-empty");
    assert_eq!(
        shown(validate_predicate_qname(&"x".repeat(97)).unwrap_err()),
        "predicate qname exceeds 96 bytes"
    );
    assert_eq!(
        shown(validate_predicate_qname("role").unwrap_err()),
        "predicate must use \"namespace:name\" form"
    );
    assert_eq!(split_qname("a:b:c").unwrap(), ("a", "b:c"));
}

#[test]
fn a_new_statement_is_its_own_root() {
    let s = statement();
    assert_eq!(s.id, [0x5A; 16]);
    assert_eq!(s.chain_root, [0x5A; 16]);
    assert_eq!(s.version, 1);
    assert_eq!(s.subject, SubjectRef::Entity([1; 16]));
    assert_eq!(s.predicate, 42);
    assert_eq!(s.supersedes, None);
    assert_eq!(s.superseded_by, None);
    assert!(!s.tombstoned);
    match s.evidence {
        EvidenceRef::Inline(v) => assert_eq!(evidence_ids(v), vec![[5u8; 16]]),
        EvidenceRef::Overflow(_) => panic!("inline evidence was expected"),
    }
}

#[test]
fn confidence_is_checked() {
    for bad in [1.5f32, -0.1, f32::NAN] {
        let r = StatementCreateRequest { confidence: single(bad), ..create() };
        assert_eq!(
            shown(check_statement_request(&r).unwrap_err()),
            "confidence must be in [0, 1] and not NaN"
        );
    }
    assert_eq!(check_statement_request(&create()).unwrap(), ("test", "role"));
}

#[test]
fn predicates_resolve_against_the_active_schema() {
    let declared = PredicateLookup { active_version: Some(3), found: Some(5), declared: vec![5] };
    assert_eq!(resolve_predicate("test:role", "test", &declared).unwrap(), Some(5));
    let foreign = PredicateLookup { active_version: Some(3), found: Some(5), declared: vec![6] };
    match resolve_predicate("test:role", "test", &foreign).unwrap_err() {
        OpError::PredicateNotInSchema { predicate, namespace, version } => {
            assert_eq!(predicate, "test:role");
            assert_eq!(namespace, "test");
            assert_eq!(version, 3);
        }
        other => panic!("{other:?}"),
    }
    let open = PredicateLookup { active_version: None, found: None, declared: Vec::new() };
    assert_eq!(resolve_predicate("test:role", "test", &open).unwrap(), None);
}

#[test]
fn creating_a_statement() {
    let open = PredicateLookup { active_version: None, found: None, declared: Vec::new() };
    let w = plan_statement_create(&create(), &open, &caller(), NOW, [0x5A; 16]).unwrap();
    assert!(matches!(
        w.write_id,
        WriteId::Request { request_id: [8, ..], space_id: [9, ..] }
    ));
    assert_eq!(w.request_hash, Some(hash_statement_create_request(&create())));
    match w.phase {
        Phase::UpsertStatement { id, session, predicate, predicate_intern_hint, .. } => {
            assert_eq!(id, [0x5A; 16]);
            assert_eq!(session, 11);
            assert_eq!(predicate, 0);
            assert_eq!(predicate_intern_hint, Some(("test".to_string(), "role".to_string())));
        }
        other => panic!("{other:?}"),
    }
    assert_eq!(
        created_statement_id(&ack(PhaseAck::UpsertedStatement([0x5A; 16]))).unwrap(),
        [0x5A; 16]
    );
    assert_eq!(
        shown(created_statement_id(&ack(PhaseAck::Other)).unwrap_err()),
        "Internal(\"unexpected phase ack for STATEMENT_CREATE: Shown\")"
    );
    let done = finish_statement_create(&create(), [0x5A; 16], Some(&statement())).unwrap();
    assert_eq!(done.response.statement_id, [0x5A; 16]);
    assert_eq!(done.response.auto_superseded, [0; 16]);
    assert_eq!(done.created.predicate, "test:role");
    assert!(done.superseded.is_none());
    assert_eq!(done.text_ops.len(), 1);
    let replaced = Statement { supersedes: Some([3; 16]), ..statement() };
    let done = finish_statement_create(&create(), [0x5A; 16], Some(&replaced)).unwrap();
    assert_eq!(done.response.auto_superseded, [3; 16]);
    assert_eq!(done.superseded.unwrap().old_statement_id, [3; 16]);
    assert_eq!(done.text_ops.len(), 2);
    assert!(finish_statement_create(&create(), [0x5A; 16], None).is_err());
}

#[test]
fn the_digest_ignores_the_request_id() {
    let other = StatementCreateRequest { request_id: [77; 16], ..create() };
    assert_eq!(hash_statement_create_request(&other), hash_statement_create_request(&create()));
    let changed = StatementCreateRequest { extractor_id: 8, ..create() };
    assert_ne!(hash_statement_create_request(&changed), hash_statement_create_request(&create()));
}

#[test]
fn object_digests_are_tagged() {
    let bytes = |o: StatementObject| {
        let mut h = Vec::new();
        hash_statement_object(&mut h, &o);
        h
    };
    let entity = bytes(StatementObject::EntityRef([4; 16]));
    let memory = bytes(StatementObject::MemoryRef([4; 16]));
    assert_ne!(entity, memory);
    assert_eq!(entity[1], b'e');
    assert_eq!(memory[1], b'm');
    assert_eq!(entity[2..], memory[2..]);
    assert_eq!(bytes(copy_object(&StatementObject::EntityRef([4; 16]))), entity);
}

#[test]
fn superseding_a_statement() {
    let req = StatementSupersedeRequest {
        old_statement_id: [2; 16],
        new_statement: create(),
        request_id: [8; 16],
    };
    assert!(admit_supersede(&req, Some(caller()), &caller(), "St").is_ok());
    match admit_supersede(&req, Some(stranger()), &caller(), "St").unwrap_err() {
        OpError::NotFound { what, detail } => {
            assert_eq!(what, "statement");
            assert_eq!(detail, "St");
        }
        other => panic!("{other:?}"),
    }
    let w = plan_statement_supersede(&req, 5, &caller(), NOW, [6; 16]).unwrap();
    match w.phase {
        Phase::SupersedeStatement { old, replacement, at_unix_nanos } => {
            assert_eq!(old, [2; 16]);
            assert_eq!(replacement.id, [6; 16]);
            assert_eq!(at_unix_nanos, NOW);
        }
        other => panic!("{other:?}"),
    }
    assert_eq!(
        superseding_statement_id(&ack(PhaseAck::SupersededStatement([6; 16]))).unwrap(),
        [6; 16]
    );
    let row = Statement { version: 4, chain_root: [1; 16], ..statement() };
    let done = finish_statement_supersede(&req, [6; 16], Some(&row)).unwrap();
    assert_eq!(done.response.version, 4);
    assert_eq!(done.response.chain_root, [1; 16]);
    assert_eq!(done.superseded.old_statement_id, [2; 16]);
    assert_eq!(done.superseded.new_statement_id, [6; 16]);
}

fn removal() -> StatementTombstoneRequest {
    StatementTombstoneRequest {
        statement_id: [2; 16],
        reason: 1,
        reason_message: "old".into(),
        request_id: [8; 16],
    }
}

#[test]
fn tombstoning_and_retracting() {
    assert_ne!(
        hash_statement_tombstone_request(&removal()),
        hash_statement_retract_request(&removal())
    );
    let w = plan_statement_tombstone(&removal(), Some(caller()), &caller(), "St", NOW).unwrap();
    assert!(matches!(
        w.phase,
        Phase::Tombstone { target: TombstoneTarget::Statement([2, ..]), reason: 1, .. }
    ));
    let w = plan_statement_retract(&removal(), Some(caller()), &caller(), "St", NOW).unwrap();
    assert!(matches!(w.phase, Phase::Tombstone { reason: 5, .. }));
    assert!(plan_statement_tombstone(&removal(), None, &caller(), "St", NOW).is_err());
    let long = StatementTombstoneRequest { reason_message: "x".repeat(4097), ..removal() };
    assert_eq!(
        shown(plan_statement_retract(&long, Some(caller()), &caller(), "St", NOW).unwrap_err()),
        "reason_message exceeds 4 KiB"
    );
    assert!(decode_tombstone_reason(0).is_err());
    assert_eq!(decode_tombstone_reason(4).unwrap(), 4);
    assert!(decode_tombstone_reason(5).is_err());

    let done = ack(PhaseAck::Tombstoned { tombstoned_at_unix_nanos: 100 });
    let removed = finish_statement_tombstone(&removal(), &done).unwrap();
    assert_eq!(removed.at_unix_nanos, 100);
    assert_eq!(removed.removed.reason, "old");
    let (response, _) = finish_statement_retract(&removal(), &done).unwrap();
    assert_eq!(response.will_zero_at_unix_nanos, 100 + RETRACT_GRACE_NANOS);
    assert_eq!(
        shown(finish_statement_retract(&removal(), &ack(PhaseAck::Other)).unwrap_err()),
        "Internal(\"unexpected phase ack for STATEMENT_RETRACT: Shown\")"
    );
}

fn row(s: Statement) -> StatementRow {
    StatementRow {
        statement: s,
        predicate: Some(PredicateName { namespace: "test".into(), name: "role".into() }),
        overflow: None,
        shown: RowText { id: "St".into(), predicate: "Pr".into(), overflow: "Ov".into() },
    }
}

#[test]
fn reading_a_statement() {
    assert!(admit_statement_get(true, Some(caller()), &caller(), "St").is_ok());
    assert!(admit_statement_get(false, Some(caller()), &caller(), "St").is_err());
    assert!(admit_statement_get(true, Some(stranger()), &caller(), "St").is_err());
    let view = project_view(row(statement())).unwrap();
    assert_eq!(view.predicate, "test:role");
    assert!(project_view(StatementRow { predicate: None, ..row(statement()) }).is_err());
    let got = statement_get_response(row(statement()), true).unwrap();
    assert!(got.returned_via_supersession);
}

#[test]
fn overflowing_evidence_is_shown_inline() {
    let far = Statement { evidence: EvidenceRef::Overflow([6; 16]), ..statement() };
    let read = StatementRow { overflow: Some(vec![[7; 16], [8; 16]]), ..row(far) };
    match project_view(read).unwrap().statement.evidence {
        EvidenceRef::Inline(v) => assert_eq!(evidence_ids(v), vec![[7u8; 16], [8; 16]]),
        EvidenceRef::Overflow(_) => panic!("inline evidence was expected"),
    }
}

#[test]
fn a_walk_follows_successors() {
    let old = Statement { superseded_by: Some([6; 16]), ..statement() };
    let stay = ChainWalk::start(Statement { superseded_by: Some([6; 16]), ..statement() }, false);
    assert_eq!(stay.wanted(), None);
    let walk = ChainWalk::start(old, true);
    assert_eq!(walk.wanted(), Some([6; 16]));
    let newest = Statement { id: [6; 16], ..statement() };
    let walk = walk.arrive(Some(newest), "Su", "St").unwrap();
    assert_eq!(walk.wanted(), None);
    assert!(walk.moved);
    assert_eq!(walk.current.id, [6; 16]);
    let lost = ChainWalk::start(Statement { superseded_by: Some([6; 16]), ..statement() }, true);
    assert_eq!(
        shown(lost.arrive(None, "Su", "St").unwrap_err()),
        "Internal(\"chain dangling at Su from St\")"
    );
}

fn history() -> StatementHistoryRequest {
    StatementHistoryRequest {
        anchor_id: [2; 16],
        include_tombstoned: false,
        limit: 2,
        cursor: Vec::new(),
    }
}

#[test]
fn history_pages() {
    assert_eq!(admit_history(&history(), Some(caller()), &caller(), "St").unwrap(), None);
    let bad = StatementHistoryRequest { limit: 1001, ..history() };
    assert_eq!(
        shown(admit_history(&bad, Some(caller()), &caller(), "St").unwrap_err()),
        "limit must be in 1..=1000"
    );
    let page = || HistoryPage {
        rows: vec![row(statement()), row(Statement { tombstoned: true, ..statement() })],
        chain_root: [1; 16],
        total: 3,
        has_more: true,
        last_version: Some(2),
    };
    let frame = history_frame(&history(), None, page(), &caller(), "St").unwrap();
    assert_eq!(frame.total_versions, 3);
    assert_eq!(frame.items.len(), 1);
    let next = StatementHistoryRequest { cursor: frame.next_cursor, ..history() };
    let resume = admit_history(&next, Some(caller()), &caller(), "St").unwrap();
    assert_eq!(resume, Some(([1; 16], 2)));
    assert_eq!(
        shown(history_frame(&next, Some(([7; 16], 2)), page(), &caller(), "St").unwrap_err()),
        "stale_cursor: anchor changed between pages"
    );
}

#[test]
fn tombstoned_rows_are_left_out() {
    let rows = || vec![row(statement()), row(Statement { tombstoned: true, ..statement() })];
    assert_eq!(project_rows(rows(), false).unwrap().len(), 1);
    assert_eq!(project_rows(rows(), true).unwrap().len(), 2);
}

fn list() -> StatementListRequest {
    StatementListRequest {
        subject: [0; 16],
        predicate: String::new(),
        kind: 0,
        only_current: true,
        include_tombstoned: false,
        min_confidence: single(0.0),
        time_range_start_unix_nanos: 0,
        time_range_end_unix_nanos: 0,
        limit: 10,
        cursor: Vec::new(),
    }
}

#[test]
fn listing_statements() {
    let open = ListPredicate { active_version: None, found: None };
    let req = list();
    let admitted = admit_statement_list(&req, &caller()).unwrap();
    let walk = plan_statement_list(&req, &admitted, open).unwrap().unwrap();
    assert_eq!(walk.subject, None);
    assert_eq!(walk.predicate, None);
    assert_eq!(walk.time_range, None);
    assert!(walk.current_only);

    let named = StatementListRequest { predicate: "test:role".into(), ..list() };
    let admitted = admit_statement_list(&named, &caller()).unwrap();
    assert_eq!(admitted.predicate, Some(("test", "role")));
    let unknown = ListPredicate { active_version: None, found: None };
    assert!(plan_statement_list(&named, &admitted, unknown).unwrap().is_none());
    let strict = ListPredicate { active_version: Some(2), found: None };
    assert!(plan_statement_list(&named, &admitted, strict).is_err());
    assert!(empty_statement_list().items.is_empty());

    let frame = statement_list_frame(
        StatementPage {
            rows: vec![row(statement())],
            has_more: true,
            last: Some(StatementListCursor { id: [4; 16] }),
        },
        &admitted.signature,
        &caller(),
    )
    .unwrap();
    assert_eq!(frame.cumulative_count, 1);
    let back = decode_statement_cursor(&frame.next_cursor, caller(), &admitted.signature).unwrap();
    assert_eq!(back.unwrap().id, [4; 16]);
    assert!(decode_statement_cursor(&frame.next_cursor, stranger(), &admitted.signature).is_err());
}

#[test]
fn list_cursors_are_bound_to_their_filters() {
    let sig = statement_list_filter_signature(&list());
    let other = statement_list_filter_signature(&StatementListRequest {
        only_current: false,
        ..list()
    });
    assert_ne!(sig, other);
    let c = encode_statement_cursor(caller(), &sig, &StatementListCursor { id: [4; 16] });
    assert!(decode_statement_cursor(&c, caller(), &other).is_err());
}
