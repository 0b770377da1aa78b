use brain_ops::error::{map_schema_writer_err, OpError, WriterError};
use brain_ops::schema::{
    admit_schema_list, bind_namespace, caller_may_read_namespace, caller_namespace_name,
    check_document_cap, finish_schema_upload, hash_schema_upload_request,
    invalid_upload_response, map_schema_store_error, needs_active_version, parse_error_to_wire,
    plan_schema_upload, schema_get_response, schema_list_frame, schema_validate_response,
    schema_version_to_read, version_after, ParseError, ReadDocument, SchemaGetRequest,
    SchemaListRequest, SchemaRow, SchemaStoreError, SchemaUploadRequest, UploadStep,
    ValidationError,
};
use brain_ops::schema_drop::{
    admit_schema_drop, decide_schema_drop, drop_next, drop_start, gate_schema_drop,
    hash_schema_drop_request, idempotency_entry, locate_drop_target, narrow_document,
    narrowing_failed, not_declared_response, replay_schema_drop, schema_drop_response,
    target_kind_label, DocumentItem, DropNeed, DropRead, DropRun, DropStep, IdempotencyEntry,
    ItemKind, SchemaDocument, SchemaDropRequest, DROP_PREDICATE, DROP_RELATION_TYPE,
};
use brain_ops::schema_merge::{
    classify_schema_merge, map_cardinality, map_statement_kind, Cardinality, CardinalityAst,
    DeclaredItem, PredicateDecl, PredicateRow, RelationDecl, RelationRow, StatementKindAst,
};
use brain_ops::schema_replace::{
    admit_schema_replace, finish_schema_replace, hash_schema_replace_request,
    invalid_replace_response, parse_failed_replace_response, plan_schema_replace,
    SchemaReplaceRequest,
};
use brain_ops::statement::StatementKind;
use brain_ops::write::{Ack, Phase, PhaseAck};

fn shown(e: OpError) -> String {
    match e {
        OpError::InvalidRequest(m) => m,
        other => format!("{other:?}"),
    }
}

fn ack(phase: PhaseAck) -> Ack {
    Ack { phase, shown: "Shown".into() }
}

fn upload() -> SchemaUploadRequest {
    SchemaUploadRequest {
        schema_document: "namespace acme".into(),
        allow_breaking: false,
        dry_run: false,
        request_id: [7; 16],
    }
}

fn kind(stored: Option<Vec<u8>>) -> DeclaredItem {
    DeclaredItem::Kind { name: "habit".into(), declared: vec![7], stored }
}

fn prefers(stateful: bool) -> DeclaredItem {
    DeclaredItem::Predicate {
        decl: PredicateDecl {
            name: "prefers".into(),
            kind: StatementKindAst::Preference,
            object_type: 1,
            object_entity_type: 0,
            description: None,
            stateful,
        },
        row: Some(PredicateRow {
            kind_constraint: Some(StatementKind::Preference),
            object_type: 1,
            object_entity_type: 0,
            description: String::new(),
            stateful: true,
        }),
    }
}

#[test]
fn document_sizes() {
    assert_eq!(shown(check_document_cap("").unwrap_err()), "schema_document must be non-empty");
    assert_eq!(
        shown(check_document_cap(&"x".repeat(1_048_577)).unwrap_err()),
        "schema_document exceeds cap (1048577 > 1048576 bytes)"
    );
    assert!(check_document_cap(&"x".repeat(1_048_576)).is_ok());
}

#[test]
fn parse_error_codes() {
    let wire = parse_error_to_wire(ParseError::MissingField {
        line: 2,
        col: 9,
        message: "no name".into(),
    });
    assert_eq!(wire.code, "MissingField");
    assert_eq!(wire.message, "no name");
    assert_eq!((wire.line, wire.column, wire.length), (2, 9, 0));
}

#[test]
fn uploads_are_bound_to_the_namespace() {
    let err = bind_namespace("schema_upload: caller in namespace ", " cannot declare schema for namespace ", "acme", "other")
        .unwrap_err();
    assert_eq!(
        shown(err),
        "Unauthorized(\"schema_upload: caller in namespace \\\"acme\\\" cannot declare schema for namespace \\\"other\\\"\")"
    );
    let step = plan_schema_upload(&upload(), "other", "acme", [9; 16], None, &Vec::new(), 5);
    assert!(matches!(step, Err(OpError::Unauthorized(_))));
}

#[test]
fn uploading_a_schema() {
    match plan_schema_upload(&upload(), "acme", "acme", [9; 16], Some(2), &vec![kind(None)], 5)
        .unwrap()
    {
        UploadStep::Submit(w) => {
            assert_eq!(w.request_hash, Some(hash_schema_upload_request(&upload())));
            match w.phase {
                Phase::UpsertSchema { namespace, version, blob, replace_all, .. } => {
                    assert_eq!(namespace, "acme");
                    assert_eq!(version, 3);
                    assert_eq!(blob, b"namespace acme".to_vec());
                    assert!(!replace_all);
                }
                other => panic!("{other:?}"),
            }
        }
        UploadStep::Answer(a) => panic!("{a:?}"),
    }
    // Nothing new: the active version stands.
    let items = vec![prefers(true), kind(Some(vec![7]))];
    match plan_schema_upload(&upload(), "acme", "acme", [9; 16], Some(2), &items, 5)
        .unwrap()
    {
        UploadStep::Answer(a) => assert_eq!(a.schema_version, 2),
        UploadStep::Submit(w) => panic!("{w:?}"),
    }
    let dry = SchemaUploadRequest { dry_run: true, ..upload() };
    match plan_schema_upload(&dry, "acme", "acme", [9; 16], Some(2), &Vec::new(), 5).unwrap() {
        UploadStep::Answer(a) => {
            assert_eq!(a.namespace, "acme");
            assert!(a.validation_errors.is_empty());
        }
        UploadStep::Submit(w) => panic!("{w:?}"),
    }
    let done = ack(PhaseAck::UpsertedSchema { version: 3, dropped: 0 });
    let (response, event) = finish_schema_upload("acme", Some(2), &done).unwrap();
    assert_eq!(response.schema_version, 3);
    assert_eq!((event.from_version, event.to_version), (2, 3));
    assert!(finish_schema_upload("acme", None, &ack(PhaseAck::Other)).is_err());
    assert_eq!(version_after(None), 1);
    assert_eq!(version_after(Some(u32::MAX)), u32::MAX);
}

#[test]
fn merges_report_the_first_conflict() {
    let err = classify_schema_merge("acme", &vec![prefers(false)], Some(2)).unwrap_err();
    match err {
        OpError::SchemaConflict { kind, name, namespace, conflict } => {
            assert_eq!(kind, "predicate");
            assert_eq!(name, "prefers");
            assert_eq!(namespace, "acme");
            assert_eq!(conflict, "stateful: stored=true new=false");
        }
        other => panic!("{other:?}"),
    }
    let two = DeclaredItem::Predicate {
        decl: PredicateDecl {
            name: "prefers".into(),
            kind: StatementKindAst::Any,
            object_type: 2,
            object_entity_type: 0,
            description: Some("d".into()),
            stateful: true,
        },
        row: Some(PredicateRow {
            kind_constraint: Some(StatementKind::Fact),
            object_type: 1,
            object_entity_type: 0,
            description: String::new(),
            stateful: true,
        }),
    };
    match classify_schema_merge("acme", &vec![two], None).unwrap_err() {
        OpError::SchemaConflict { conflict, .. } => assert_eq!(
            conflict,
            "kind: stored=Some(Fact) new=None, object_type: stored=1 new=2, description differs"
        ),
        other => panic!("{other:?}"),
    }
    let relation = DeclaredItem::RelationType {
        decl: RelationDecl {
            name: "mentors".into(),
            cardinality: CardinalityAst::OneToMany,
            symmetric: false,
            description: None,
        },
        row: Some(RelationRow {
            cardinality: Cardinality::OneToOne,
            symmetric: true,
            description: String::new(),
        }),
    };
    match classify_schema_merge("acme", &vec![relation], None).unwrap_err() {
        OpError::SchemaConflict { kind, conflict, .. } => {
            assert_eq!(kind, "relation_type");
            assert_eq!(
                conflict,
                "cardinality: stored=OneToOne new=OneToMany, symmetric: stored=true new=false"
            );
        }
        other => panic!("{other:?}"),
    }
    let blob = DeclaredItem::EntityType { name: "Person".into(), stored_blob: Some(vec![1]) };
    match classify_schema_merge("acme", &vec![blob], None).unwrap_err() {
        OpError::SchemaConflict { conflict, .. } => assert_eq!(
            conflict,
            "stored schema_blob is non-empty; merge requires a matching blob"
        ),
        other => panic!("{other:?}"),
    }
    let extractor = DeclaredItem::Extractor { name: "e".into(), kind: 2, stored_kind: Some(1) };
    match classify_schema_merge("acme", &vec![extractor], None).unwrap_err() {
        OpError::SchemaConflict { conflict, .. } => {
            assert_eq!(conflict, "kind: stored=1 new=2")
        }
        other => panic!("{other:?}"),
    }
}

#[test]
fn unchanged_declarations_merge_to_nothing() {
    let items = vec![
        prefers(true),
        DeclaredItem::EntityType { name: "Person".into(), stored_blob: Some(Vec::new()) },
        DeclaredItem::Extractor { name: "e".into(), kind: 2, stored_kind: Some(2) },
        kind(Some(vec![7])),
    ];
    let m = classify_schema_merge("acme", &items, Some(4)).unwrap();
    assert!(m.all_idempotent);
    assert_eq!(m.current_version, Some(4));
    assert!(!classify_schema_merge("acme", &vec![kind(None)], Some(4)).unwrap().all_idempotent);
    match classify_schema_merge("acme", &vec![kind(Some(vec![8]))], Some(4)).unwrap_err() {
        OpError::SchemaConflict { kind, name, conflict, .. } => {
            assert_eq!((kind, name.as_str()), ("kind", "habit"));
            assert_eq!(conflict, "stored declaration differs");
        }
        other => panic!("{other:?}"),
    }
    let fresh = vec![DeclaredItem::EntityType { name: "Person".into(), stored_blob: None }];
    assert!(!classify_schema_merge("acme", &fresh, Some(4)).unwrap().all_idempotent);
    assert_eq!(map_statement_kind(StatementKindAst::Any), None);
    assert_eq!(map_statement_kind(StatementKindAst::Directive), Some(StatementKind::Directive));
    assert_eq!(map_cardinality(CardinalityAst::ManyToMany), Cardinality::ManyToMany);
}

fn get(namespace: &str, version: u32) -> SchemaGetRequest {
    SchemaGetRequest { namespace: namespace.into(), version }
}

fn stored() -> SchemaRow {
    SchemaRow {
        namespace: "acme".into(),
        version: 2,
        source_text: Some("namespace acme".into()),
        source: vec![1, 2],
        uploaded_at_unix_nanos: 77,
        validator_version: 1,
    }
}

#[test]
fn reading_a_schema() {
    assert!(caller_may_read_namespace("acme", "acme"));
    assert!(caller_may_read_namespace("acme", "brain"));
    assert!(!caller_may_read_namespace("acme", "other"));
    assert_eq!(
        shown(schema_version_to_read(&get("", 0), "acme", None).unwrap_err()),
        "schema_get: namespace must be non-empty"
    );
    assert!(needs_active_version(&get("acme", 0), "acme"));
    assert!(!needs_active_version(&get("acme", 4), "acme"));
    assert!(!needs_active_version(&get("other", 0), "acme"));
    // A foreign namespace reads as one without a schema.
    let foreign = schema_version_to_read(&get("other", 3), "acme", Some(3)).unwrap_err();
    assert_eq!(
        shown(foreign),
        "NotFound { what: \"schema\", detail: \"no active schema for namespace \\\"other\\\"\" }"
    );
    let absent = schema_version_to_read(&get("acme", 0), "acme", None).unwrap_err();
    assert_eq!(
        shown(absent),
        "NotFound { what: \"schema\", detail: \"no active schema for namespace \\\"acme\\\"\" }"
    );
    assert_eq!(schema_version_to_read(&get("acme", 0), "acme", Some(2)).unwrap(), 2);
    let r = schema_get_response(&get("acme", 0), 2, Some(stored())).unwrap();
    assert_eq!(r.schema_version, 2);
    assert_eq!(r.schema_document, "namespace acme");
    assert_eq!(
        shown(schema_get_response(&get("acme", 9), 9, None).unwrap_err()),
        "NotFound { what: \"schema\", detail: \"namespace=\\\"acme\\\" version=9\" }"
    );
}

#[test]
fn listing_schemas() {
    let list = |namespace: &str| SchemaListRequest {
        namespace: namespace.into(),
        limit: 0,
        cursor: Vec::new(),
    };
    assert_eq!(
        shown(admit_schema_list(&list(""), "acme").unwrap_err()),
        "schema_list: namespace must be non-empty"
    );
    assert!(!admit_schema_list(&list("other"), "acme").unwrap());
    assert!(admit_schema_list(&list("acme"), "acme").unwrap());
    let frame = schema_list_frame(&list("acme"), &vec![stored()]);
    assert_eq!(frame.total, 1);
    assert!(frame.items[0].has_source_text);
    assert!(schema_list_frame(&list("other"), &Vec::new()).items.is_empty());
}

#[test]
fn validating_a_schema() {
    let r = schema_validate_response(ReadDocument::Valid { namespace: "acme".into() }, Some(4));
    assert_eq!(r.would_be_version, 5);
    let errors = vec![ValidationError {
        code: "DuplicateDefinition".into(),
        message: "dup".into(),
        source_span: None,
    }];
    let r = schema_validate_response(
        ReadDocument::Invalid { namespace: "acme".into(), errors },
        Some(4),
    );
    assert_eq!(r.validation_errors.len(), 1);
    assert_eq!(r.namespace, "acme");
    let r = schema_validate_response(
        ReadDocument::Unparsed(ParseError::Syntax { line: 1, col: 2, message: "m".into() }),
        None,
    );
    assert_eq!(r.validation_errors[0].code, "Syntax");
}

#[test]
fn schema_store_errors() {
    assert_eq!(
        shown(map_schema_store_error(SchemaStoreError::VersionOverflow {
            namespace: "acme".into()
        })),
        "Conflict(\"schema_version overflow for namespace \\\"acme\\\"\")"
    );
    assert!(matches!(
        map_schema_writer_err(WriterError::Overloaded),
        OpError::Overloaded(m) if m == "writer overloaded"
    ));
    assert_eq!(caller_namespace_name(Some("acme".into()), 3).unwrap(), "acme");
    assert!(caller_namespace_name(None, 3).is_err());
    let errors: Vec<ValidationError> = Vec::new();
    assert_eq!(invalid_upload_response("acme", &errors).namespace, "acme");
}

fn drop_req(kind: u8, name: &str, force: bool) -> SchemaDropRequest {
    SchemaDropRequest {
        namespace: "acme".into(),
        target_kind: kind,
        target_name: name.into(),
        force,
        request_id: [1; 16],
    }
}

fn document() -> SchemaDocument {
    let item = |kind, name: &str| DocumentItem { kind, name: name.into(), body: vec![1] };
    SchemaDocument {
        namespace: "acme".into(),
        items: vec![
            item(ItemKind::Predicate, "prefers"),
            item(ItemKind::Predicate, "dislikes"),
            item(ItemKind::RelationType, "mentors"),
        ],
        source: Some("text".into()),
    }
}

#[test]
fn drops_are_admitted_for_two_kinds() {
    assert!(admit_schema_drop(&drop_req(DROP_PREDICATE, "prefers", false), "acme").is_ok());
    assert!(admit_schema_drop(&drop_req(DROP_RELATION_TYPE, "m", false), "acme").is_ok());
    assert_eq!(
        shown(admit_schema_drop(&drop_req(2, "Person", false), "acme").unwrap_err()),
        "schema_drop: unsupported target_kind 2 (0 = predicate, 1 = relation_type; \
         entity types are global in v1 and cannot be dropped)"
    );
    assert_eq!(
        shown(admit_schema_drop(&drop_req(0, "", false), "acme").unwrap_err()),
        "schema_drop: target_name must be non-empty"
    );
    assert!(matches!(
        admit_schema_drop(&drop_req(0, "prefers", false), "other"),
        Err(OpError::Unauthorized(_))
    ));
}

#[test]
fn dropping_narrows_the_document() {
    let req = drop_req(DROP_PREDICATE, "prefers", false);
    assert_eq!(locate_drop_target(&req, &document().items), Some(0));
    match decide_schema_drop(&req, Some((2, document())), 0).unwrap() {
        DropStep::Narrow(d) => {
            let names: Vec<_> = d.items.iter().map(|i| i.name.as_str()).collect();
            assert_eq!(names, vec!["dislikes", "mentors"]);
            assert!(d.source.is_none());
        }
        DropStep::Answer(a) => panic!("{a:?}"),
    }
    let relation = drop_req(DROP_RELATION_TYPE, "mentors", false);
    match decide_schema_drop(&relation, Some((2, document())), 0).unwrap() {
        DropStep::Narrow(d) => assert_eq!(d.items.len(), 2),
        DropStep::Answer(a) => panic!("{a:?}"),
    }
    let r = schema_drop_response(&req, 3, true, 0);
    assert!(r.dropped);
    assert_eq!(r.schema_version, 3);
    assert_eq!(narrow_document(document(), 2).items.len(), 2);
}

#[test]
fn dropping_what_is_not_declared_changes_nothing() {
    let req = drop_req(DROP_PREDICATE, "never_declared", false);
    match decide_schema_drop(&req, Some((2, document())), 0).unwrap() {
        DropStep::Answer(a) => {
            assert!(!a.dropped);
            assert_eq!(a.schema_version, 2);
        }
        DropStep::Narrow(d) => panic!("{d:?}"),
    }
    match decide_schema_drop(&req, None, 0).unwrap() {
        DropStep::Answer(a) => assert_eq!(a.schema_version, 0),
        DropStep::Narrow(d) => panic!("{d:?}"),
    }
    assert_eq!(not_declared_response(&req, 2).target_name, "never_declared");
    // A predicate is no relation type.
    let wrong = drop_req(DROP_RELATION_TYPE, "prefers", false);
    assert_eq!(locate_drop_target(&wrong, &document().items), None);
}

#[test]
fn live_rows_need_force() {
    let req = drop_req(DROP_PREDICATE, "prefers", false);
    assert_eq!(
        shown(gate_schema_drop(&req, 1).unwrap_err()),
        "Conflict(\"schema_drop: predicate \\\"prefers\\\" still has live rows in namespace \\\"acme\\\"; \
         set force to drop it and leave those rows as orphans\")"
    );
    assert!(decide_schema_drop(&req, Some((2, document())), 1).is_err());
    let forced = drop_req(DROP_PREDICATE, "prefers", true);
    assert!(matches!(
        decide_schema_drop(&forced, Some((2, document())), 1).unwrap(),
        DropStep::Narrow(_)
    ));
    assert_eq!(schema_drop_response(&forced, 3, true, 1).live_rows, 1);
    assert_eq!(target_kind_label(DROP_RELATION_TYPE), "relation_type");
}

#[test]
fn drops_replay() {
    let req = drop_req(DROP_PREDICATE, "prefers", false);
    let hash = hash_schema_drop_request(&req);
    let kept = idempotency_entry(hash, vec![1, 2, 3], 50);
    assert_eq!(kept.created_at_unix_nanos, 50);
    assert_eq!(replay_schema_drop(&req, &None, &hash).unwrap(), None);
    assert_eq!(replay_schema_drop(&req, &Some(kept), &hash).unwrap(), Some(vec![1, 2, 3]));
    let other = hash_schema_drop_request(&drop_req(DROP_PREDICATE, "dislikes", false));
    assert_ne!(hash, other);
    let kept = idempotency_entry(other, vec![1, 2, 3], 50);
    assert_eq!(
        shown(replay_schema_drop(&req, &Some(kept), &hash).unwrap_err()),
        "Conflict(\"schema_drop: request_id replay with different params (namespace \\\"acme\\\")\")"
    );
    let old = IdempotencyEntry { expired: true, ..idempotency_entry(other, vec![1], 50) };
    assert_eq!(replay_schema_drop(&req, &Some(old), &hash).unwrap(), None);
    assert_eq!(
        shown(narrowing_failed(2)),
        "Internal(\"schema_drop: narrowed document failed re-validation: 2 error(s)\")"
    );
}

#[test]
fn a_drop_goes_step_by_step() {
    let req = drop_req(DROP_PREDICATE, "prefers", true);
    assert!(drop_start(&req, "other").is_err());
    assert!(matches!(drop_start(&req, "acme"), Ok(DropNeed::Remembered)));
    let mut run = DropRun::new();
    let need = drop_next(&req, &mut run, DropRead::Remembered(None));
    assert!(matches!(need, DropNeed::Document));
    let need = drop_next(&req, &mut run, DropRead::Document(Some((2, document()))));
    assert!(matches!(need, DropNeed::LiveRows));
    let need = drop_next(&req, &mut run, DropRead::LiveRows(1));
    assert!(matches!(need, DropNeed::Validation));
    match drop_next(&req, &mut run, DropRead::Validation(Ok(()))) {
        DropNeed::Commit(d) => {
            let names: Vec<_> = d.items.iter().map(|i| i.name.as_str()).collect();
            assert_eq!(names, vec!["dislikes", "mentors"]);
        }
        other => panic!("{other:?}"),
    }
    match drop_next(&req, &mut run, DropRead::Committed { version: 3, removed: true }) {
        DropNeed::Answer(Ok(a)) => {
            assert!(a.dropped);
            assert_eq!((a.schema_version, a.live_rows), (3, 1));
        }
        other => panic!("{other:?}"),
    }
}

#[test]
fn a_drop_stops_early() {
    let req = drop_req(DROP_PREDICATE, "prefers", false);
    let mut run = DropRun::new();
    let kept = idempotency_entry(hash_schema_drop_request(&req), vec![4, 2], 50);
    match drop_next(&req, &mut run, DropRead::Remembered(Some(kept))) {
        DropNeed::Replay(p) => assert_eq!(p, vec![4, 2]),
        other => panic!("{other:?}"),
    }
    let forced = hash_schema_drop_request(&drop_req(DROP_PREDICATE, "prefers", true));
    let kept = idempotency_entry(forced, vec![4, 2], 50);
    assert!(matches!(
        drop_next(&req, &mut run, DropRead::Remembered(Some(kept))),
        DropNeed::Answer(Err(OpError::Conflict(_)))
    ));
    match drop_next(&req, &mut run, DropRead::Document(None)) {
        DropNeed::Answer(Ok(a)) => assert_eq!((a.dropped, a.schema_version), (false, 0)),
        other => panic!("{other:?}"),
    }
    drop_next(&req, &mut run, DropRead::Document(Some((2, document()))));
    assert!(matches!(
        drop_next(&req, &mut run, DropRead::LiveRows(1)),
        DropNeed::Answer(Err(OpError::Conflict(_)))
    ));
    drop_next(&req, &mut run, DropRead::Document(Some((2, document()))));
    drop_next(&req, &mut run, DropRead::LiveRows(0));
    match drop_next(&req, &mut run, DropRead::Validation(Err(2))) {
        DropNeed::Answer(Err(OpError::Internal(m))) => {
            assert_eq!(m, "schema_drop: narrowed document failed re-validation: 2 error(s)")
        }
        other => panic!("{other:?}"),
    }
}

#[test]
fn flipped_flags_digest_differently() {
    let plain = drop_req(DROP_PREDICATE, "prefers", false);
    let forced = drop_req(DROP_PREDICATE, "prefers", true);
    assert_ne!(hash_schema_drop_request(&plain), hash_schema_drop_request(&forced));
    let breaking = SchemaUploadRequest { allow_breaking: !upload().allow_breaking, ..upload() };
    assert_ne!(hash_schema_upload_request(&upload()), hash_schema_upload_request(&breaking));
}

#[test]
fn replacing_a_schema() {
    let req = |force| SchemaReplaceRequest {
        schema_document: "namespace acme".into(),
        force_drop_existing: force,
        request_id: [1; 16],
    };
    assert_eq!(
        shown(admit_schema_replace(&req(false)).unwrap_err()),
        "schema_replace: force_drop_existing must be true to confirm a destructive replace"
    );
    assert!(admit_schema_replace(&req(true)).is_ok());
    let w = plan_schema_replace(&req(true), "acme", "acme", [9; 16], Some(4), 5).unwrap();
    assert_eq!(w.request_hash, Some(hash_schema_replace_request(&req(true))));
    assert!(matches!(w.phase, Phase::UpsertSchema { version: 5, replace_all: true, .. }));
    assert!(matches!(
        plan_schema_replace(&req(true), "other", "acme", [9; 16], Some(4), 5),
        Err(OpError::Unauthorized(_))
    ));
    let done = ack(PhaseAck::UpsertedSchema { version: 5, dropped: 2 });
    let r = finish_schema_replace("acme", &done).unwrap();
    assert_eq!((r.schema_version, r.dropped_count), (5, 2));
    assert_eq!(parse_failed_replace_response("bad".into()).validation_errors.len(), 1);
    assert_eq!(invalid_replace_response("acme", &Vec::new()).namespace, "acme");
    // A replace and an upload of one document differ.
    assert_ne!(hash_schema_replace_request(&req(true)), hash_schema_upload_request(&upload()));
}
