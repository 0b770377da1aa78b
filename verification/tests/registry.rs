use brain_ops::error::{writer_err, ExecError, OpError, WriterError};
use brain_ops::extractor_admin::{
    extractor_list_frame, map_extractor_op_error, ExtractorOpError, ExtractorRow,
};
use brain_ops::encode_trace::empty_artifact;
use brain_ops::memory_inspect::memory_inspect;
use brain_ops::registry_cascade::{
    build_write, cascade_ids, timeline_bounds, tombstone_space_memories,
};
use brain_ops::scope::{in_caller_scope, RowScope};
use brain_ops::session::{
    admit_session_delete, finish_session_create, finish_session_delete, plan_session_create,
    plan_session_delete, session_list_response, SessionCreateRequest, SessionDeleteRequest,
    SessionRow,
};
use brain_ops::space::{
    finish_space_create, finish_space_delete, plan_space_create, plan_space_delete,
    space_list_response, SpaceCreateRequest, SpaceRow,
};
use brain_ops::write::{Ack, Phase, PhaseAck, TombstoneTarget, WriteId};

fn caller() -> RowScope {
    RowScope { namespace_id: 3, space_id_bytes: [9; 16] }
}

fn stranger() -> RowScope {
    RowScope { namespace_id: 4, space_id_bytes: [9; 16] }
}

fn ack(phase: PhaseAck) -> Ack {
    Ack { phase, shown: "Shown".into() }
}

fn key(session: u64, memory: u128) -> [u8; 52] {
    let mut k = [0u8; 52];
    k[28..36].copy_from_slice(&session.to_be_bytes());
    k[36..].copy_from_slice(&memory.to_be_bytes());
    k
}

#[test]
fn timeline_keys() {
    let (lo, hi) = timeline_bounds(&[7; 20]);
    assert_eq!(lo[..20], [7; 20]);
    assert_eq!(lo[20..], [0; 32]);
    assert_eq!(hi[..20], [7; 20]);
    assert_eq!(hi[20..], [0xFF; 32]);
    let keys = vec![key(1, 10), key(2, 11), key(1, 12)];
    assert_eq!(cascade_ids(&keys, None), vec![10, 11, 12]);
    assert_eq!(cascade_ids(&keys, Some(1)), vec![10, 12]);
    assert!(cascade_ids(&keys, Some(9)).is_empty());
}

#[test]
fn cascades_forget_each_memory() {
    let writes = tombstone_space_memories(&vec![key(1, 10)], true, None, &caller(), 5);
    assert_eq!(writes.len(), 1);
    let w = &writes[0];
    assert!(matches!(w.write_id, WriteId::Fresh));
    assert_eq!(w.namespace_id, Some(3));
    assert!(w.request_hash.is_none());
    assert!(matches!(
        w.phase,
        Phase::Tombstone {
            target: TombstoneTarget::Memory { id: 10, hard: true },
            reason: 1,
            at_unix_nanos: 5
        }
    ));
}

#[test]
fn registry_writes_are_digested() {
    let w = build_write([1; 16], &caller(), Phase::SpaceDelete { at_unix_nanos: 1 }, "space_delete");
    let mut bytes = b"space_delete".to_vec();
    bytes.extend([1; 16]);
    bytes.extend([9; 16]);
    assert_eq!(w.request_hash, Some(*blake3::hash(&bytes).as_bytes()));
}

fn session_request() -> SessionCreateRequest {
    SessionCreateRequest { session_id: 5, title: "trip".into(), request_id: [1; 16] }
}

fn session_row() -> SessionRow {
    SessionRow {
        session_id: 5,
        created_at_unix_nanos: 10,
        last_active_unix_nanos: 20,
        title: "trip".into(),
        memory_count: 3,
    }
}

#[test]
fn sessions() {
    let w = plan_session_create(&session_request(), &caller(), 7);
    match w.phase {
        Phase::SessionCreate { session_id, title, created_at_unix_nanos } => {
            assert_eq!((session_id, title.as_str(), created_at_unix_nanos), (5, "trip", 7));
        }
        other => panic!("{other:?}"),
    }
    let done = ack(PhaseAck::SessionCreated { created: true });
    let r = finish_session_create(&session_request(), &done, &Some(session_row()), &caller(), 7);
    assert!(r.created);
    assert_eq!((r.created_at_unix_nanos, r.memory_count), (10, 3));
    let r = finish_session_create(&session_request(), &ack(PhaseAck::Other), &None, &caller(), 7);
    assert!(!r.created);
    assert_eq!((r.created_at_unix_nanos, r.last_active_unix_nanos, r.memory_count), (7, 7, 0));
    let l = session_list_response(vec![session_row()], &caller());
    assert_eq!(l.space_id, [9; 16]);
    assert_eq!(l.sessions[0].title, "trip");
}

#[test]
fn the_default_session_stays() {
    let req = |session_id| SessionDeleteRequest { session_id, hard: true, request_id: [1; 16] };
    match admit_session_delete(&req(0)).unwrap_err() {
        OpError::InvalidRequest(m) => {
            assert_eq!(m, "the default session (session_id = 0) is non-deletable")
        }
        other => panic!("{other:?}"),
    }
    assert!(plan_session_delete(&req(0), &caller(), 7).is_err());
    let w = plan_session_delete(&req(5), &caller(), 7).unwrap();
    assert!(matches!(
        w.phase,
        Phase::SessionDelete { session_id: 5, hard: true, at_unix_nanos: 7 }
    ));
    let done = ack(PhaseAck::SessionDeleted { existed: true });
    let r = finish_session_delete(&req(5), &done, 4, &caller());
    assert!(r.existed);
    assert_eq!(r.memories_forgotten, 4);
}

#[test]
fn spaces() {
    let req = SpaceCreateRequest { metadata: vec![1, 2], request_id: [1; 16] };
    match plan_space_create(&req, &caller(), 7).phase {
        Phase::SpaceCreate { metadata, .. } => assert_eq!(metadata, vec![1, 2]),
        other => panic!("{other:?}"),
    }
    let row = SpaceRow {
        space_id: [9; 16],
        created_at_unix_nanos: 10,
        last_active_unix_nanos: 20,
        memory_count: 3,
        session_count: 2,
    };
    let done = ack(PhaseAck::SpaceCreated { created: true });
    let r = finish_space_create(&done, Some(row), &caller(), 7);
    assert_eq!((r.created, r.session_count), (true, 2));
    let r = finish_space_create(&done, None, &caller(), 7);
    assert_eq!((r.created_at_unix_nanos, r.session_count), (7, 0));
    let l = space_list_response(&vec![row]);
    assert_eq!(l.spaces[0].memory_count, 3);
    assert!(!l.cross_shard_complete);
    assert!(matches!(
        plan_space_delete([1; 16], &caller(), 7).phase,
        Phase::SpaceDelete { at_unix_nanos: 7 }
    ));
    let r = finish_space_delete(&ack(PhaseAck::SpaceDeleted { existed: false }), 6, &caller());
    assert_eq!((r.existed, r.memories_forgotten), (false, 6));
}

#[test]
fn foreign_memories_are_not_inspected() {
    assert!(in_caller_scope(Some(caller()), &caller()));
    assert!(!in_caller_scope(Some(stranger()), &caller()));
    assert!(!in_caller_scope(None, &caller()));
    let text = || Some("secret".to_string());
    let r = memory_inspect([1; 16], Some(caller()), &caller(), text(), Some(empty_artifact()));
    assert!(r.found);
    assert_eq!(r.text, "secret");
    for owner in [Some(stranger()), None] {
        let r = memory_inspect([1; 16], owner, &caller(), text(), None);
        assert!(!r.found);
        assert_eq!(r.text, "");
    }
}

#[test]
fn extractors() {
    let row = ExtractorRow {
        extractor_id: 4,
        namespace: "acme".into(),
        name: "dates".into(),
        kind: 1,
        schema_version: 2,
        created_at_unix_nanos: 9,
    };
    let f = extractor_list_frame(vec![row]);
    assert_eq!(f.total, 1);
    assert_eq!(f.items[0].name, "dates");
    assert!(f.is_final);
    let shown = |e| format!("{:?}", map_extractor_op_error(e));
    assert_eq!(
        shown(ExtractorOpError::NotFound { id: 12 }),
        "NotFound { what: \"extractor\", detail: \"id 12\" }"
    );
    assert_eq!(
        shown(ExtractorOpError::InvalidIdentifier { reason: "bad".into() }),
        "InvalidRequest(\"bad\")"
    );
    assert_eq!(
        shown(ExtractorOpError::AlreadyExists { qname: "a:b".into(), existing_id: 7 }),
        "Conflict(\"extractor \\\"a:b\\\" already exists with id 7\")"
    );
    assert_eq!(shown(ExtractorOpError::Other("x".into())), "Internal(\"x\")");
}

#[test]
fn writer_errors_are_wrapped() {
    assert!(matches!(
        writer_err(WriterError::Conflict("c".into())),
        OpError::ExecError(ExecError::WriterFailed(WriterError::Conflict(m))) if m == "c"
    ));
}
