use brain_ops::error::OpError;
use brain_ops::events::MemoryKind;
use brain_ops::memory_list::{
    build_filter, check_memory_list, decode_cursor, encode_cursor, filter_signature,
    graph_counts, memory_list_frame, plan_memory_list, row_to_item, MemoryListDirWire,
    MemoryListPage, MemoryListRequest, MemoryListRow, MemoryListSortWire, MemoryListTimeAxisWire,
    MemoryMetadata,
};
use brain_ops::single::Single;

fn single(x: f32) -> Single {
    Single::from_bits(x.to_bits())
}

fn request() -> MemoryListRequest {
    MemoryListRequest {
        sort: MemoryListSortWire::Created,
        dir: MemoryListDirWire::Desc,
        time_axis: MemoryListTimeAxisWire::Created,
        kinds: vec![MemoryKind::Semantic],
        include_tombstoned: false,
        from_unix_nanos: 0,
        to_unix_nanos: 50,
        salience_min: single(0.0),
        salience_max: single(1.0),
        text_contains: String::new(),
        limit: 10,
        cursor: Vec::new(),
    }
}

fn refusal(req: MemoryListRequest) -> String {
    match check_memory_list(&req).unwrap_err() {
        OpError::InvalidRequest(m) => m,
        other => panic!("{other:?}"),
    }
}

#[test]
fn list_requests_are_checked_in_order() {
    assert!(check_memory_list(&request()).is_ok());
    assert_eq!(refusal(MemoryListRequest { limit: 0, ..request() }), "limit must be in 1..=100");
    assert_eq!(refusal(MemoryListRequest { limit: 101, ..request() }), "limit must be in 1..=100");
    assert_eq!(
        refusal(MemoryListRequest { sort: MemoryListSortWire::Salience, ..request() }),
        "sort not yet supported; use created"
    );
    assert_eq!(
        refusal(MemoryListRequest { time_axis: MemoryListTimeAxisWire::Occurred, ..request() }),
        "occurred_at time axis not yet supported; use created"
    );
    assert_eq!(
        refusal(MemoryListRequest { text_contains: "x".into(), ..request() }),
        "text filter not yet supported"
    );
    assert_eq!(
        refusal(MemoryListRequest { salience_min: single(1.5), ..request() }),
        "salience_min must be <= salience_max"
    );
    assert_eq!(
        refusal(MemoryListRequest { from_unix_nanos: 60, ..request() }),
        "from_unix_nanos must be <= to_unix_nanos"
    );
    // An open end bounds nothing.
    let open = MemoryListRequest { from_unix_nanos: 60, to_unix_nanos: 0, ..request() };
    assert!(check_memory_list(&open).is_ok());
}

#[test]
fn list_filters() {
    let f = build_filter(&request());
    assert_eq!(f.kinds, vec![1]);
    assert_eq!(f.created_from, None);
    assert_eq!(f.created_to, Some(50));
}

#[test]
fn the_signature_binds_every_filter() {
    let sig = filter_signature(&request());
    let changed = [
        MemoryListRequest { dir: MemoryListDirWire::Asc, ..request() },
        MemoryListRequest { include_tombstoned: true, ..request() },
        MemoryListRequest { kinds: vec![MemoryKind::Episodic], ..request() },
        MemoryListRequest { kinds: Vec::new(), ..request() },
        MemoryListRequest { from_unix_nanos: 1, ..request() },
        MemoryListRequest { to_unix_nanos: 51, ..request() },
        MemoryListRequest { salience_min: single(0.1), ..request() },
        MemoryListRequest { salience_max: single(0.9), ..request() },
    ];
    for r in &changed {
        assert_ne!(filter_signature(r), sig);
    }
    let kinds = |kinds| filter_signature(&MemoryListRequest { kinds, ..request() });
    let both = kinds(vec![MemoryKind::Episodic, MemoryKind::Semantic]);
    assert_eq!(kinds(vec![MemoryKind::Semantic, MemoryKind::Episodic]), both);
    assert_eq!(
        kinds(vec![MemoryKind::Semantic, MemoryKind::Episodic, MemoryKind::Semantic]),
        both
    );
    assert_ne!(both, sig);
    let paged = MemoryListRequest { limit: 3, cursor: vec![1], ..request() };
    assert_eq!(filter_signature(&paged), sig);

    let mut bytes = vec![0u8, 0, 0, 0, 1];
    bytes.extend(1u32.to_le_bytes());
    bytes.extend(0u64.to_le_bytes());
    bytes.extend(50u64.to_le_bytes());
    bytes.extend(0.0f32.to_le_bytes());
    bytes.extend(1.0f32.to_le_bytes());
    assert_eq!(sig, blake3::hash(&bytes).as_bytes()[..8]);
}

#[test]
fn list_cursors_resume() {
    let sig = filter_signature(&request());
    let key = [0x42u8; 52];
    let c = encode_cursor(&request(), &sig, &key);
    assert_eq!(c.len(), 63);
    assert_eq!(decode_cursor(&c, &request(), &sig).unwrap(), key);
    let resumed = MemoryListRequest { cursor: c.clone(), ..request() };
    let plan = plan_memory_list(&resumed).unwrap();
    assert_eq!(plan.after_key, Some(key));
    assert!(plan.descending);
    let toggled = MemoryListRequest { include_tombstoned: true, cursor: c.clone(), ..request() };
    match plan_memory_list(&toggled).unwrap_err() {
        OpError::InvalidRequest(m) => assert_eq!(m, "stale_cursor: filters changed"),
        other => panic!("{other:?}"),
    }
    let turned = MemoryListRequest { dir: MemoryListDirWire::Asc, ..request() };
    assert!(decode_cursor(&c, &turned, &sig).is_err());
    assert!(decode_cursor(&c[..62], &request(), &sig).is_err());
    let mut old = c;
    old[0] = 2;
    assert!(decode_cursor(&old, &request(), &sig).is_err());
    assert_eq!(plan_memory_list(&request()).unwrap().after_key, None);
}

fn row() -> MemoryMetadata {
    MemoryMetadata {
        memory_id_bytes: [1; 16],
        space_id_bytes: [9; 16],
        session_id: 2,
        kind: 1,
        active: true,
        created_at_unix_nanos: 10,
        occurred_at_unix_nanos: None,
        last_accessed_at_unix_nanos: 20,
        salience: single(0.5),
        access_count: 3,
    }
}

#[test]
fn rows_and_counts() {
    let i = row_to_item(&row(), "hi".into());
    assert_eq!((i.state, i.occurred_at_unix_nanos, i.statement_count), (0, 0, 0));
    let gone = MemoryMetadata { active: false, occurred_at_unix_nanos: Some(7), ..row() };
    let i = row_to_item(&gone, String::new());
    assert_eq!((i.state, i.occurred_at_unix_nanos), (1, 7));
    assert_eq!(i.source_request_id, [0; 16]);
    assert_eq!(graph_counts(1, 2, usize::MAX), (1, 2, u32::MAX));
}

#[test]
fn list_frames() {
    let page = |has_more, last_key| MemoryListPage {
        rows: vec![MemoryListRow {
            row: row(),
            text: Some("hi".into()),
            statements: 1,
            entities: 2,
            relations: 3,
        }],
        has_more,
        last_key,
    };
    let sig = filter_signature(&request());
    let f = memory_list_frame(&request(), &sig, &page(true, Some([7; 52])));
    assert_eq!(f.items[0].text, "hi");
    assert_eq!(f.items[0].entity_count, 2);
    assert_eq!(f.cumulative_count, 1);
    assert_eq!(decode_cursor(&f.next_cursor, &request(), &sig).unwrap(), [7; 52]);
    let f = memory_list_frame(&request(), &sig, &page(false, Some([7; 52])));
    assert!(f.next_cursor.is_empty());
    assert!(f.is_final);
}
