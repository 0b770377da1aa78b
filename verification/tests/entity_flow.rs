use brain_ops::entity::Entity;
use brain_ops::entity_ops::{
    entity_get, entity_list_frame, finish_entity_create, finish_entity_merge,
    finish_entity_rename, finish_entity_tombstone, finish_entity_unmerge, finish_entity_update,
    hash_entity_create_request, hash_entity_merge_request, hash_entity_rename_request,
    hash_entity_tombstone_request, hash_entity_unmerge_request, hash_entity_update_request,
    plan_entity_create, plan_entity_list, plan_entity_merge, plan_entity_rename,
    plan_entity_tombstone, plan_entity_unmerge, plan_entity_update, EntityCreateRequest,
    EntityListRequest, EntityMergeRequest, EntityPage, EntityRenameRequest,
    EntityTombstoneRequest, EntityUnmergeRequest, EntityUpdateRequest,
};
use brain_ops::entity_resolve::{
    embedding_text, fallback_entity_id, plan_fallback_entity, resolve_next, resolve_start,
    EntityHit, EntityResolveRequest, EntityResolveResponse, ResolutionOutcome, ResolveNeed,
    ResolveRead,
};
use brain_ops::error::{map_entity_writer_err, OpError, WriterError};
use brain_ops::scope::RowScope;
use brain_ops::single::Single;
use brain_ops::write::{Ack, Phase, PhaseAck, TombstoneTarget};

fn single(x: f32) -> Single {
    Single::from_bits(x.to_bits())
}

fn caller() -> RowScope {
    RowScope { namespace_id: 3, space_id_bytes: [9; 16] }
}

fn stranger() -> RowScope {
    RowScope { namespace_id: 3, space_id_bytes: [8; 16] }
}

fn ack(phase: PhaseAck) -> Ack {
    Ack { phase, shown: "Shown".into() }
}

fn invalid(e: OpError) -> String {
    match e {
        OpError::InvalidRequest(m) => m,
        other => format!("{other:?}"),
    }
}

fn entity() -> Entity {
    Entity {
        id: [1; 16],
        entity_type: 4,
        canonical_name: "Priya".into(),
        normalized_name: "priya".into(),
        aliases: vec!["P".into()],
        attributes: vec![1, 2],
        mention_count: 6,
        created_at_unix_nanos: 10,
        updated_at_unix_nanos: 20,
        merged_into: None,
        embedding_version: 1,
        flags: 0,
    }
}

fn create() -> EntityCreateRequest {
    EntityCreateRequest {
        entity_type_id: 4,
        canonical_name: "Priya".into(),
        aliases: vec!["P".into()],
        attributes_blob: vec![1],
        session_id: 2,
        request_id: [7; 16],
    }
}

#[test]
fn creating_an_entity() {
    let w = plan_entity_create(&create(), "priya".into(), &caller(), 50, [1; 16]).unwrap();
    assert_eq!(w.request_hash, Some(hash_entity_create_request(&create())));
    match w.phase {
        Phase::UpsertEntity { id, ty, session, canonical, normalized, aliases, .. } => {
            assert_eq!(id, [1; 16]);
            assert_eq!(ty, 4);
            assert_eq!(session, 2);
            assert_eq!(canonical, "Priya");
            assert_eq!(normalized, "priya");
            assert_eq!(aliases, vec!["P".to_string()]);
        }
        other => panic!("{other:?}"),
    }
    let blank = EntityCreateRequest { canonical_name: " \t".into(), ..create() };
    assert_eq!(
        invalid(plan_entity_create(&blank, "".into(), &caller(), 50, [1; 16]).unwrap_err()),
        "canonical_name must be non-empty"
    );
    let many = EntityCreateRequest { aliases: vec!["a".into(); 257], ..create() };
    assert_eq!(
        invalid(plan_entity_create(&many, "".into(), &caller(), 50, [1; 16]).unwrap_err()),
        "aliases must have <= 256 entries"
    );
    let done = finish_entity_create(&create(), &ack(PhaseAck::UpsertedEntity([1; 16]))).unwrap();
    assert_eq!(done.entity_id, [1; 16]);
    assert_eq!(done.canonical_name, "Priya");
    assert_eq!(
        invalid(finish_entity_create(&create(), &ack(PhaseAck::Other)).unwrap_err()),
        "Internal(\"unexpected phase ack for ENTITY_CREATE: Shown\")"
    );
}

#[test]
fn entity_digests_tell_requests_apart() {
    let update = EntityUpdateRequest {
        entity_id: [1; 16],
        canonical_name: "Priya".into(),
        aliases: Vec::new(),
        attributes_blob: Vec::new(),
        request_id: [7; 16],
    };
    let rename = EntityRenameRequest {
        entity_id: [1; 16],
        new_canonical_name: "Priya".into(),
        move_to_alias: true,
        request_id: [7; 16],
    };
    let merge = EntityMergeRequest {
        survivor: [1; 16],
        merged: [2; 16],
        confidence: single(0.9),
        reason: "same".into(),
        request_id: [7; 16],
    };
    let unmerge = EntityUnmergeRequest { merged_entity: [2; 16], request_id: [7; 16] };
    let gone =
        EntityTombstoneRequest { entity_id: [1; 16], reason: "x".into(), request_id: [7; 16] };
    let digests = [
        hash_entity_create_request(&create()),
        hash_entity_update_request(&update),
        hash_entity_rename_request(&rename),
        hash_entity_merge_request(&merge),
        hash_entity_unmerge_request(&unmerge),
        hash_entity_tombstone_request(&gone),
    ];
    for i in 0..digests.len() {
        for j in 0..i {
            assert_ne!(digests[i], digests[j]);
        }
    }
    let retried = EntityTombstoneRequest { request_id: [9; 16], ..gone };
    assert_eq!(digests[5], hash_entity_tombstone_request(&retried));
}

#[test]
fn reading_an_entity() {
    let got =
        entity_get(Some((entity(), vec![[2; 16]])), Some(caller()), &caller(), "En").unwrap();
    assert_eq!(got.entity.canonical_name, "Priya");
    assert_eq!(got.entity.merged_into, [0; 16]);
    assert_eq!(got.resolved_from, vec![[2u8; 16]]);
    let hidden = entity_get(Some((entity(), Vec::new())), Some(stranger()), &caller(), "En");
    let missing = entity_get(None, None, &caller(), "En");
    assert_eq!(format!("{:?}", hidden.unwrap_err()), format!("{:?}", missing.unwrap_err()));
}

#[test]
fn updating_and_renaming() {
    let req = EntityUpdateRequest {
        entity_id: [1; 16],
        canonical_name: "Priya".into(),
        aliases: Vec::new(),
        attributes_blob: vec![3],
        request_id: [7; 16],
    };
    assert!(plan_entity_update(&req, Some(caller()), &caller(), "En", 5).is_ok());
    assert!(plan_entity_update(&req, Some(stranger()), &caller(), "En", 5).is_err());
    let (view, event) =
        finish_entity_update(&req, &ack(PhaseAck::EntityUpdated { snapshot: entity() })).unwrap();
    assert_eq!(view.entity_id, [1; 16]);
    assert_eq!(event.canonical_name, "Priya");

    let rename = EntityRenameRequest {
        entity_id: [1; 16],
        new_canonical_name: "Priya S".into(),
        move_to_alias: true,
        request_id: [7; 16],
    };
    assert!(plan_entity_rename(&rename, Some(caller()), &caller(), "En", 5).is_ok());
    let dropped = EntityRenameRequest { move_to_alias: false, ..rename };
    assert_eq!(
        invalid(plan_entity_rename(&dropped, Some(caller()), &caller(), "En", 5).unwrap_err()),
        "rename with move_to_alias=false is not yet supported"
    );
    let done = ack(PhaseAck::EntityRenamed {
        old_canonical_name: "Old".into(),
        snapshot: entity(),
    });
    let (_, event) = finish_entity_rename(&dropped, &done).unwrap();
    assert_eq!(event.old_canonical_name, "Old");
}

#[test]
fn merging_and_unmerging() {
    let req = || EntityMergeRequest {
        survivor: [1; 16],
        merged: [2; 16],
        confidence: single(0.9),
        reason: "same".into(),
        request_id: [7; 16],
    };
    let plan = |s, m| plan_entity_merge(&req(), s, m, &caller(), "S", "M", 5);
    match plan(Some(caller()), Some(caller())).unwrap().phase {
        Phase::MergeEntities { source, target, grace_seconds, .. } => {
            assert_eq!(source, [2; 16]);
            assert_eq!(target, [1; 16]);
            assert_eq!(grace_seconds, 604_800);
        }
        other => panic!("{other:?}"),
    }
    match plan(Some(caller()), Some(stranger())).unwrap_err() {
        OpError::NotFound { what, detail } => {
            assert_eq!(what, "entity");
            assert_eq!(detail, "survivor=S merged=M");
        }
        other => panic!("{other:?}"),
    }
    let wordy = EntityMergeRequest { reason: "x".repeat(4097), ..req() };
    assert_eq!(
        invalid(
            plan_entity_merge(&wordy, Some(caller()), Some(caller()), &caller(), "S", "M", 5)
                .unwrap_err()
        ),
        "reason exceeds 4 KiB"
    );
    let done = ack(PhaseAck::EntityMerged {
        audit_id: [4; 16],
        statements_rerouted: 2,
        relations_rerouted: 3,
    });
    let (response, event) = finish_entity_merge(&req(), &done).unwrap();
    assert_eq!(response.audit_id, [4; 16]);
    assert_eq!(response.grace_period_seconds, 604_800);
    assert_eq!(event.statements_rerouted, 2);

    let undo = EntityUnmergeRequest { merged_entity: [2; 16], request_id: [7; 16] };
    assert!(plan_entity_unmerge(&undo, Some(caller()), &caller(), "M", 5).is_ok());
    let done = ack(PhaseAck::EntitiesUnmerged { survivor: [1; 16] });
    let event = finish_entity_unmerge(&undo, &done).unwrap();
    assert_eq!(event.restored_entity_id, [2; 16]);
    assert_eq!(event.from_survivor, [1; 16]);
}

#[test]
fn removing_an_entity() {
    let req =
        EntityTombstoneRequest { entity_id: [1; 16], reason: "x".into(), request_id: [7; 16] };
    let w = plan_entity_tombstone(&req, Some(caller()), &caller(), "En", 5).unwrap();
    assert!(matches!(
        w.phase,
        Phase::Tombstone { target: TombstoneTarget::Entity([1, ..]), reason: 1, .. }
    ));
    let done = ack(PhaseAck::Tombstoned { tombstoned_at_unix_nanos: 8 });
    let (at, event) = finish_entity_tombstone(&req, &done).unwrap();
    assert_eq!(at, 8);
    assert_eq!(event.reason, "x");
}

#[test]
fn listing_entities() {
    let req = || EntityListRequest {
        entity_type_id: 4,
        include_tombstoned: false,
        include_merged: false,
        mention_count_min: 0,
        name_prefix: String::new(),
        limit: 2,
        cursor: Vec::new(),
    };
    assert_eq!(plan_entity_list(&req(), &caller()).unwrap().resume_after, None);
    assert_eq!(
        invalid(
            plan_entity_list(&EntityListRequest { entity_type_id: 0, ..req() }, &caller())
                .unwrap_err()
        ),
        "entity_type_id filter is required in v1.0 ENTITY_LIST"
    );
    let page = EntityPage { rows: vec![entity()], has_more: true, last_id: Some([1; 16]) };
    let frame = entity_list_frame(&page, &caller());
    assert_eq!(frame.items.len(), 1);
    let next = EntityListRequest { cursor: frame.next_cursor, ..req() };
    assert_eq!(plan_entity_list(&next, &caller()).unwrap().resume_after, Some([1; 16]));
    assert!(plan_entity_list(&next, &stranger()).is_err());
    let last = EntityPage { rows: vec![entity()], has_more: false, last_id: Some([1; 16]) };
    assert!(entity_list_frame(&last, &caller()).next_cursor.is_empty());
}

#[test]
fn entity_writer_errors() {
    assert!(matches!(
        map_entity_writer_err(WriterError::Internal("entity not found: 7".into())),
        OpError::NotFound { what: "entity", .. }
    ));
    assert!(matches!(
        map_entity_writer_err(WriterError::Internal("disk".into())),
        OpError::ExecError(_)
    ));
}

fn resolve(allow_create: bool) -> EntityResolveRequest {
    EntityResolveRequest {
        candidate_name: "Priya".into(),
        entity_type_hint: 4,
        resolution_context: "c".repeat(150),
        allow_create,
        request_id: [7; 16],
    }
}

fn answer(need: ResolveNeed) -> EntityResolveResponse {
    match need {
        ResolveNeed::Answer(r) => r,
        other => panic!("{other:?}"),
    }
}

#[test]
fn resolution_starts_by_the_hint() {
    assert!(matches!(resolve_start(&resolve(false)).unwrap(), ResolveNeed::Exact));
    let open = EntityResolveRequest { entity_type_hint: 0, ..resolve(false) };
    assert!(matches!(resolve_start(&open).unwrap(), ResolveNeed::AllTypes));
    let long = EntityResolveRequest { candidate_name: "x".repeat(257), ..resolve(false) };
    assert_eq!(invalid(resolve_start(&long).unwrap_err()), "candidate_name exceeds 256 bytes");
    let blank = EntityResolveRequest { candidate_name: "  ".into(), ..resolve(false) };
    assert_eq!(invalid(resolve_start(&blank).unwrap_err()), "candidate_name must be non-empty");
}

#[test]
fn exact_names_resolve_first() {
    let next = |r| resolve_next(&resolve(false), &caller(), &r);
    let r = answer(next(ResolveRead::AllTypes(vec![[1; 16], [2; 16]])));
    assert_eq!(r.outcome, ResolutionOutcome::Ambiguous);
    assert_eq!(r.candidate_ids.len(), 2);
    let r = answer(next(ResolveRead::AllTypes(Vec::new())));
    assert_eq!(r.outcome, ResolutionOutcome::NotFound);
    let r = answer(next(ResolveRead::Exact { canonical: Some([1; 16]), aliases: Vec::new() }));
    assert_eq!(r.resolved_entity, [1; 16]);
    assert_eq!(r.tier, 1);
    let r = answer(next(ResolveRead::Exact { canonical: None, aliases: vec![[2; 16]] }));
    assert_eq!(r.resolved_entity, [2; 16]);
    assert!(matches!(
        next(ResolveRead::Exact { canonical: None, aliases: vec![[2; 16], [3; 16]] }),
        ResolveNeed::Trigrams
    ));
}

#[test]
fn trigrams_resolve_second() {
    let next = |r| resolve_next(&resolve(false), &caller(), &r);
    let r = answer(next(ResolveRead::Trigrams(vec![
        ([1; 16], Some(single(0.84))),
        ([2; 16], Some(single(0.9))),
        ([3; 16], None),
    ])));
    assert_eq!(r.outcome, ResolutionOutcome::Resolved);
    assert_eq!(r.resolved_entity, [2; 16]);
    assert_eq!(r.tier, 2);
    assert_eq!(r.confidence, single(0.9));
    let r = answer(next(ResolveRead::Trigrams(vec![
        ([1; 16], Some(single(0.85))),
        ([2; 16], Some(single(0.9))),
    ])));
    assert_eq!(r.outcome, ResolutionOutcome::Ambiguous);
    assert_eq!(r.candidate_ids, vec![[2u8; 16], [1; 16]]);
    match next(ResolveRead::Trigrams(Vec::new())) {
        ResolveNeed::Embedding(text) => {
            assert_eq!(text, format!("Priya {}", "c".repeat(100)));
            assert_eq!(text, embedding_text(&resolve(false)));
        }
        other => panic!("{other:?}"),
    }
}

#[test]
fn embeddings_resolve_third() {
    let hit = |id: u8, score: f32, row| EntityHit { id: [id; 16], score: single(score), row };
    let hits = || {
        ResolveRead::Embedding(vec![
            hit(1, 0.9, Some((stranger(), 4))),
            hit(2, 0.88, Some((caller(), 5))),
            hit(3, 0.85, Some((caller(), 4))),
            hit(4, 0.5, Some((caller(), 4))),
            hit(5, 0.95, None),
        ])
    };
    let r = answer(resolve_next(&resolve(false), &caller(), &hits()));
    assert_eq!(r.outcome, ResolutionOutcome::Resolved);
    assert_eq!(r.resolved_entity, [3; 16]);
    assert_eq!(r.tier, 3);
    let none = ResolveRead::Embedding(Vec::new());
    let r = answer(resolve_next(&resolve(false), &caller(), &none));
    assert_eq!(r.outcome, ResolutionOutcome::NotFound);
    assert!(matches!(resolve_next(&resolve(true), &caller(), &none), ResolveNeed::Create));
    assert!(matches!(
        resolve_next(&resolve(true), &caller(), &ResolveRead::NoIndex),
        ResolveNeed::Create
    ));
    let r = answer(resolve_next(&resolve(true), &caller(), &ResolveRead::Created([6; 16])));
    assert_eq!(r.outcome, ResolutionOutcome::Created);
    assert_eq!(r.tier, 5);
    assert_eq!(r.resolved_entity, [6; 16]);
}

#[test]
fn fallback_entities() {
    let w = plan_fallback_entity(&resolve(true), "priya".into(), &caller(), 5, [6; 16]);
    match w.phase {
        Phase::UpsertEntity { id, ty, canonical, aliases, .. } => {
            assert_eq!(id, [6; 16]);
            assert_eq!(ty, 4);
            assert_eq!(canonical, "Priya");
            assert!(aliases.is_empty());
        }
        other => panic!("{other:?}"),
    }
    assert_eq!(fallback_entity_id(&ack(PhaseAck::UpsertedEntity([6; 16]))).unwrap(), [6; 16]);
    assert!(fallback_entity_id(&ack(PhaseAck::Other)).is_err());
}

#[test]
fn reordered_aliases_digest_differently() {
    let aliases = |v: &[&str]| EntityCreateRequest {
        aliases: v.iter().map(|s| s.to_string()).collect(),
        ..create()
    };
    assert_ne!(
        hash_entity_create_request(&aliases(&["a", "b"])),
        hash_entity_create_request(&aliases(&["b", "a"]))
    );
    assert_eq!(
        hash_entity_create_request(&EntityCreateRequest { request_id: [8; 16], ..create() }),
        hash_entity_create_request(&create())
    );
}
