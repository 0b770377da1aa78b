use brain_ops::events::EdgeKind;
use brain_ops::graph_fetch::{
    admit_graph_fetch, builtin_edge_label, bytes_to_key, decode_cursor, encode_cursor,
    is_symmetric, key_to_bytes, memory_edge_byte, memory_edge_endpoints, req_flags, snippet,
    GraphFetchRequest, StmtKey, EDGE_FACT, EDGE_HAS_STATEMENT, EDGE_MENTIONS, EDGE_RELATION,
    FLAG_MEMORIES, FLAG_MEMORY_EDGES, FLAG_STATEMENTS, FLAG_TOMBSTONED, GRAPH_CURSOR_LEN,
    GRAPH_CURSOR_VERSION, STMT_KEY_LEN,
};
use brain_ops::scope::RowScope;

fn caller() -> RowScope {
    RowScope { namespace_id: 7, space_id_bytes: [1; 16] }
}

fn key() -> StmtKey {
    (7, [1u8; 16], [0xABu8; 16], 3, 0x00C0_FFEE, 1, [0x42u8; 16])
}

fn request() -> GraphFetchRequest {
    GraphFetchRequest {
        limit: 10,
        cursor: Vec::new(),
        include_statements: false,
        include_memories: false,
        include_memory_edges: false,
        include_tombstoned: false,
        act_as: None,
    }
}

#[test]
fn key_bytes_round_trip() {
    let k = key();
    let bytes = key_to_bytes(&k);
    assert_eq!(bytes.len(), STMT_KEY_LEN);
    assert_eq!(bytes_to_key(&bytes), Some(k));
}

#[test]
fn cursor_round_trips_and_binds_flags() {
    let flags = FLAG_STATEMENTS | FLAG_MEMORIES;
    let cur = encode_cursor(flags, &key());
    assert_eq!(cur.len(), GRAPH_CURSOR_LEN);
    assert_eq!(decode_cursor(&cur, flags).unwrap(), key());
}

#[test]
fn cursor_rejects_changed_flags() {
    // A cursor minted with statements and memories must not resume a request
    // that dropped a layer: the derived result set would differ.
    let cur = encode_cursor(FLAG_STATEMENTS | FLAG_MEMORIES, &key());
    assert!(decode_cursor(&cur, FLAG_STATEMENTS).is_err());
    assert!(decode_cursor(&cur, 0).is_err());
}

#[test]
fn cursor_rejects_wrong_version_and_length() {
    let mut cur = encode_cursor(0, &key());
    assert!(decode_cursor(&cur[..GRAPH_CURSOR_LEN - 1], 0).is_err());
    cur[0] = GRAPH_CURSOR_VERSION.wrapping_add(1);
    assert!(decode_cursor(&cur, 0).is_err());
}

#[test]
fn req_flags_maps_each_toggle() {
    let base = request();
    assert_eq!(req_flags(&base), 0);
    assert_eq!(
        req_flags(&GraphFetchRequest { include_statements: true, ..request() }),
        FLAG_STATEMENTS
    );
    assert_eq!(
        req_flags(&GraphFetchRequest {
            include_memories: true,
            include_tombstoned: true,
            ..request()
        }),
        FLAG_MEMORIES | FLAG_TOMBSTONED
    );
    assert_eq!(
        req_flags(&GraphFetchRequest {
            include_memories: true,
            include_memory_edges: true,
            ..request()
        }),
        FLAG_MEMORIES | FLAG_MEMORY_EDGES
    );
}

#[test]
fn cursor_rejects_memory_edge_toggle_mid_scroll() {
    let with = FLAG_MEMORIES | FLAG_MEMORY_EDGES;
    let cur = encode_cursor(with, &key());
    assert_eq!(decode_cursor(&cur, with).unwrap(), key());
    assert!(decode_cursor(&cur, FLAG_MEMORIES).is_err());

    let without = encode_cursor(FLAG_MEMORIES, &key());
    assert!(decode_cursor(&without, with).is_err());
}

const ALL_EDGE_KINDS: [EdgeKind; 8] = [
    EdgeKind::Caused,
    EdgeKind::FollowedBy,
    EdgeKind::DerivedFrom,
    EdgeKind::SimilarTo,
    EdgeKind::Contradicts,
    EdgeKind::Supports,
    EdgeKind::References,
    EdgeKind::PartOf,
];

#[test]
fn builtin_edge_kinds_have_distinct_non_colliding_wire_bytes() {
    let mut seen = std::collections::HashSet::new();
    for k in ALL_EDGE_KINDS {
        let byte = memory_edge_byte(k);
        assert!(seen.insert(byte), "{k:?} duplicate wire byte {byte}");
        assert!(
            ![EDGE_RELATION, EDGE_FACT, EDGE_HAS_STATEMENT, EDGE_MENTIONS].contains(&byte),
            "{k:?} collides with a typed-graph edge byte"
        );
        assert!(!builtin_edge_label(k).is_empty());
    }
    assert_eq!(seen.len(), 8);
}

#[test]
fn memory_edge_endpoints_canonicalise_only_symmetric_kinds() {
    // Ids of slots 1 and 2, version 1.
    let lo: u128 = (1 << 32) | 1;
    let hi: u128 = (2 << 32) | 1;
    assert!(lo.to_be_bytes() < hi.to_be_bytes());

    for k in [EdgeKind::SimilarTo, EdgeKind::Contradicts] {
        assert_eq!(memory_edge_endpoints(k, lo, hi, true), (lo, hi));
        assert_eq!(memory_edge_endpoints(k, lo, hi, false), (lo, hi));
        assert_eq!(memory_edge_endpoints(k, hi, lo, true), (lo, hi));
        assert_eq!(memory_edge_endpoints(k, hi, lo, false), (lo, hi));
    }
    for k in ALL_EDGE_KINDS.into_iter().filter(|k| !is_symmetric(*k)) {
        // The anchor is the source of a forward row and the target of a
        // reverse one.
        assert_eq!(memory_edge_endpoints(k, hi, lo, true), (hi, lo));
        assert_eq!(memory_edge_endpoints(k, hi, lo, false), (lo, hi));
    }
}

#[test]
fn snippet_truncates_long_text() {
    let short = "Sarah Chen";
    assert_eq!(snippet(short), short);
    let long: String = "x".repeat(200);
    let s = snippet(&long);
    assert!(s.chars().count() <= 81);
    assert!(s.ends_with('\u{2026}'));
}

#[test]
fn snippet_counts_characters() {
    let text: String = "\u{e9}".repeat(81);
    assert_eq!(snippet(&text).chars().count(), 81);
    let fits: String = "\u{e9}".repeat(80);
    assert_eq!(snippet(&fits), fits);
}

#[test]
fn graph_fetch_admission() {
    let shown = |r: Result<_, _>| match r {
        Err(brain_ops::error::OpError::InvalidRequest(m)) => m,
        other => panic!("{other:?}"),
    };
    assert_eq!(
        shown(admit_graph_fetch(&GraphFetchRequest { limit: 0, ..request() }, &caller())),
        "limit must be in 1..=500"
    );
    assert_eq!(
        shown(admit_graph_fetch(&GraphFetchRequest { limit: 501, ..request() }, &caller())),
        "limit must be in 1..=500"
    );
    assert_eq!(
        shown(admit_graph_fetch(&GraphFetchRequest { cursor: vec![1], ..request() }, &caller())),
        "stale_cursor: layer toggles changed"
    );
    assert_eq!(admit_graph_fetch(&request(), &caller()).unwrap(), None);
    let resumed = GraphFetchRequest { cursor: encode_cursor(0, &key()), ..request() };
    assert_eq!(admit_graph_fetch(&resumed, &caller()).unwrap(), Some(key()));
    let tenant = "cursor does not belong to the caller's tenant";
    let other_space = RowScope { space_id_bytes: [2; 16], ..caller() };
    assert_eq!(shown(admit_graph_fetch(&resumed, &other_space)), tenant);
    let other_namespace = RowScope { namespace_id: 8, ..caller() };
    assert_eq!(shown(admit_graph_fetch(&resumed, &other_namespace)), tenant);
}

#[test]
fn statement_key_layout() {
    let bytes = key_to_bytes(&key());
    assert_eq!(bytes[..4], [0, 0, 0, 7]);
    assert_eq!(bytes[36], 3);
    assert_eq!(bytes[37..41], [0x00, 0xC0, 0xFF, 0xEE]);
    assert_eq!(bytes[41], 1);
}

#[test]
fn edge_labels() {
    assert_eq!(builtin_edge_label(EdgeKind::Caused), "caused");
    assert_eq!(builtin_edge_label(EdgeKind::PartOf), "part_of");
    assert_eq!(memory_edge_byte(EdgeKind::Caused), 4);
    assert_eq!(memory_edge_byte(EdgeKind::PartOf), 11);
}
