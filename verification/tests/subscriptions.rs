use brain_ops::error::OpError;
use brain_ops::events::{
    EdgeKind, EdgeKindRef, EncodeRecord, EntityCreatedEvent, EventType, GraphEventPayload,
    MemoryKind, NodeRef, NotificationBody, RelationRecord, StageCompletedEventBody, StageKind,
    StageOutcome, StagePayload, WalEdge, WalPayload, WalRecord,
};
use brain_ops::single::Single;
use brain_ops::subscribe::{
    edge_payload_to_event, note_prestamped, open_poll, parse_filter, poll_step, stamp, unsubscribe,
    EventEnvelope, LsnAllocator, ParsedFilter, PollEvent, PollStep, SubscribeRequest,
    SimilarityFilter, SubscriptionFilter, SubscriptionRegistry, UnsubscribeRequest,
};

fn single(x: f32) -> Single {
    Single::from_bits(x.to_bits())
}

fn event(lsn: u64) -> EventEnvelope {
    EventEnvelope {
        lsn,
        event_type: EventType::Encoded,
        memory_id: 5,
        session_id: 2,
        kind: MemoryKind::Episodic,
        salience: single(0.5),
        timestamp_unix_nanos: 9,
        text: Some("hi".into()),
        graph_payload: None,
        edge_payload: None,
        stage_kind: None,
        stage_outcome: None,
        stage_payload: None,
        space_id: [1; 16],
        vector: None,
    }
}

fn request() -> SubscribeRequest {
    SubscribeRequest {
        filter: SubscriptionFilter {
            session_filter: None,
            kinds: None,
            similar_to: None,
            spaces: None,
            memory_ids: None,
        },
        include_history: false,
        from_lsn: None,
        max_inflight: 0,
        act_as: None,
    }
}

#[test]
fn sequence_numbers_only_grow() {
    let mut lsn = LsnAllocator::default();
    assert_eq!(lsn.current(), 0);
    assert_eq!(lsn.next_lsn(), 1);
    lsn.bump_to(10);
    lsn.bump_to(4);
    assert_eq!(lsn.current(), 10);
    assert_eq!(stamp(&mut lsn, event(0)).lsn, 11);
    note_prestamped(&mut lsn, &event(20));
    assert_eq!(lsn.current(), 21);
    assert_eq!(lsn.next_lsn(), 22);
}

#[test]
fn filters_are_allow_lists() {
    let open = ParsedFilter::default();
    let none = single(0.0);
    assert!(open.matches(&event(1), none));
    let sessions = ParsedFilter { session_filter: Some(vec![3]), ..ParsedFilter::default() };
    assert!(!sessions.matches(&event(1), none));
    let unscoped = EventEnvelope { session_id: 0, ..event(1) };
    assert!(sessions.matches(&unscoped, none));
    let kinds = ParsedFilter { kinds: Some(vec![MemoryKind::Semantic]), ..ParsedFilter::default() };
    assert!(!kinds.matches(&event(1), none));
    let spaces = ParsedFilter { spaces: Some(vec![[1; 16]]), ..ParsedFilter::default() };
    assert!(spaces.matches(&event(1), none));
    let ids = ParsedFilter { memory_ids: Some(vec![6]), ..ParsedFilter::default() };
    assert!(!ids.matches(&event(1), none));
    let salient = ParsedFilter { min_salience: Some(single(0.6)), ..ParsedFilter::default() };
    assert!(!salient.matches(&event(1), none));
}

#[test]
fn long_filters_are_refused() {
    let mut req = request();
    req.filter.session_filter = Some(vec![1; 1025]);
    assert!(matches!(parse_filter(&req), Err(OpError::InvalidRequest(_))));
    req.filter.session_filter = Some(vec![1; 1024]);
    assert_eq!(parse_filter(&req).unwrap().session_filter.unwrap().len(), 1024);
}

#[test]
fn streams_are_registered() {
    let mut reg = SubscriptionRegistry::new();
    let a = reg.register(&request(), 7).unwrap();
    let b = reg.register(&request(), 8).unwrap();
    assert_eq!((a.target_stream_id, b.target_stream_id), (1, 2));
    assert_eq!(reg.active_count(), 2);
    assert_eq!(reg.final_lsn(1), Some(7));
    reg.update_final_lsn(1, 12);
    assert_eq!(reg.unregister(1).unwrap(), 12);
    match reg.unregister(1).unwrap_err() {
        OpError::NotFound { what, detail } => {
            assert_eq!((what, detail.as_str()), ("subscription", "stream_id=1"))
        }
        other => panic!("{other:?}"),
    }
    let r = unsubscribe(&mut reg, &UnsubscribeRequest { target_stream_id: 2 }).unwrap();
    assert_eq!((r.target_stream_id, r.final_lsn), (2, 8));
    let c = reg.register(&request(), 9).unwrap();
    assert_eq!(c.target_stream_id, 3);
}

#[test]
fn history_is_not_replayed() {
    let mut reg = SubscriptionRegistry::new();
    let resume = SubscribeRequest { from_lsn: Some(3), ..request() };
    assert!(matches!(
        reg.register(&resume, 0),
        Err(OpError::NotFound { what: "wal_segment", .. })
    ));
    let all = SubscribeRequest { include_history: true, ..request() };
    assert!(reg.register(&all, 0).is_err());
    assert_eq!(reg.active_count(), 0);
}

#[test]
fn one_shot_polls_refuse_similarity() {
    let mut registry = SubscriptionRegistry::new();
    let mut req = request();
    req.filter.similar_to = Some(SimilarityFilter {
        reference_memory_id: 1,
        threshold: single(0.5),
        threshold_text: "0.5".into(),
    });
    assert!(matches!(open_poll(&mut registry, &req, 3), Err(OpError::NotYetImplemented(_))));
    assert_eq!(registry.active_count(), 0);
    req.from_lsn = Some(1);
    assert!(matches!(
        open_poll(&mut registry, &req, 3),
        Err(OpError::NotFound { what: "wal_segment", .. })
    ));
    req.from_lsn = None;
    assert_eq!(registry.register(&req, 3).unwrap().target_stream_id, 1);
    let handle = open_poll(&mut registry, &request(), 4).unwrap();
    assert_eq!((handle.target_stream_id, handle.started_at_lsn), (2, 4));
}

#[test]
fn polling() {
    let mut reg = SubscriptionRegistry::new();
    let h = reg.register(&request(), 7).unwrap();
    let only = ParsedFilter { memory_ids: Some(vec![5]), ..ParsedFilter::default() };
    let other = EventEnvelope { memory_id: 6, ..event(8) };
    let step = poll_step(&mut reg, h.target_stream_id, &only, PollEvent::Received(other, single(0.0)));
    assert!(matches!(step, PollStep::Wait));
    assert_eq!(reg.final_lsn(1), Some(7));
    let step =
        poll_step(&mut reg, h.target_stream_id, &only, PollEvent::Received(event(9), single(0.0)));
    match step {
        PollStep::Done(Ok(e)) => assert_eq!((e.lsn, e.text.as_str()), (9, "hi")),
        other => panic!("{other:?}"),
    }
    assert_eq!(reg.final_lsn(1), Some(9));
    for (ev, overloaded) in
        [(PollEvent::Lagged, true), (PollEvent::TimedOut, true), (PollEvent::Closed, false)]
    {
        match poll_step(&mut reg, 1, &only, ev) {
            PollStep::Done(Err(OpError::Overloaded(_))) => assert!(overloaded),
            PollStep::Done(Err(OpError::Internal(m))) => {
                assert!(!overloaded);
                assert_eq!(m, "subscribe: event bus closed");
            }
            other => panic!("{other:?}"),
        }
    }
}

fn record(payload: WalPayload) -> WalRecord {
    WalRecord { lsn: 4, timestamp_ns: 9, is_subscribe_event: true, payload: Some(payload) }
}

#[test]
fn encodes_are_projected_with_their_edges() {
    let edge = WalEdge {
        source: NodeRef::Memory(5),
        target: NodeRef::Memory(6),
        kind: EdgeKindRef::Builtin(EdgeKind::Caused),
        weight: single(0.25),
    };
    let events = EventEnvelope::from_wal_record(record(WalPayload::Encode(EncodeRecord {
        memory_id: 5,
        space_id: [1; 16],
        session_id: 2,
        kind: MemoryKind::Semantic,
        salience_initial: single(0.5),
        text: "hi".into(),
        edges: vec![edge],
    })));
    assert_eq!(events[0].event_type, EventType::Encoded);
    assert_eq!(events[0].lsn, 4);
    assert_eq!(events[0].text.as_deref(), Some("hi"));
    assert_eq!(events[1].event_type, EventType::EdgeAdded);
    let p = events[1].edge_payload.as_ref().unwrap();
    assert_eq!(p.from_id, 5u128.to_be_bytes());
    assert_eq!(p.to_id, 6u128.to_be_bytes());
    assert_eq!(p.weight, single(0.25));
}

#[test]
fn other_records_are_projected() {
    let forgotten = EventEnvelope::from_wal_record(record(WalPayload::Forget { memory_id: 8 }));
    assert_eq!(forgotten[0].event_type, EventType::Forgotten);
    assert_eq!(forgotten[0].memory_id, 8);
    let unlinked = EventEnvelope::from_wal_record(record(WalPayload::Unlink {
        source: NodeRef::Memory(1),
        target: NodeRef::Entity([2; 16]),
        edge_kind: EdgeKindRef::Mentions,
    }));
    assert_eq!(unlinked[0].event_type, EventType::EdgeRemoved);
    let new = RelationRecord {
        relation_id: [3; 16],
        relation_type_id: 0x1_02,
        from: NodeRef::Entity([1; 16]),
        to: NodeRef::Entity([2; 16]),
        session_id: 0,
        space_id: [1; 16],
    };
    let superseded = EventEnvelope::from_wal_record(record(WalPayload::RelationSupersede {
        old_relation_id: [4; 16],
        new,
    }));
    let p = superseded[0].edge_payload.as_ref().unwrap();
    assert_eq!(superseded[0].event_type, EventType::EdgeSuperseded);
    assert_eq!(p.superseded_relation_id, Some([4; 16]));
    assert_eq!((p.edge_kind_byte, p.relation_type_id), (2, Some(0x1_02)));
    let stage = EventEnvelope::from_wal_record(record(WalPayload::PhaseBody {
        space_id: [1; 16],
        body: NotificationBody::Stage(Some(StageCompletedEventBody {
            memory_id: 7,
            stage_kind: StageKind::Hype,
            stage_outcome: StageOutcome::Empty,
            stage_payload: StagePayload::Hype { questions_written: 0 },
        })),
    }));
    assert_eq!(stage[0].stage_kind, Some(StageKind::Hype));
    assert_eq!(stage[0].memory_id, 7);
    let graph = EventEnvelope::from_wal_record(record(WalPayload::PhaseBody {
        space_id: [1; 16],
        body: NotificationBody::Graph(Some(GraphEventPayload::EntityCreated(EntityCreatedEvent {
            entity_id: [2; 16],
            entity_type_id: 4,
            canonical_name: "Priya".into(),
        }))),
    }));
    assert_eq!(graph[0].event_type, EventType::EntityCreated);
    assert_eq!(graph[0].space_id, [0; 16]);
    assert_eq!(stage[0].space_id, [1; 16]);
}

#[test]
fn silent_records_project_to_nothing() {
    assert!(EventEnvelope::from_wal_record(record(WalPayload::DurableOnly)).is_empty());
    let undecoded = record(WalPayload::PhaseBody {
        space_id: [1; 16],
        body: NotificationBody::Graph(None),
    });
    assert!(EventEnvelope::from_wal_record(undecoded).is_empty());
    let unreadable = WalRecord { payload: None, ..record(WalPayload::DurableOnly) };
    assert!(EventEnvelope::from_wal_record(unreadable).is_empty());
}

#[test]
fn edge_bodies() {
    let p = edge_payload_to_event(
        NodeRef::Memory(1),
        NodeRef::Entity([2; 16]),
        EdgeKindRef::Mentions,
        single(1.0),
        None,
        None,
        0,
    );
    assert_eq!((p.from_kind, p.to_kind), (0, 1));
    assert_eq!((p.edge_kind_tag, p.edge_kind_byte, p.relation_type_id), (1, 0, None));
}
