use brain_ops::scope::RowScope;
use brain_ops::single::Single;
use brain_ops::statement::{
    decode_history_cursor, encode_history_cursor, EvidenceRefWire, StatementCreateRequest,
    StatementKind, StatementObject, StatementValue,
};
use brain_ops::statement_ops::build_statement_from_create;

fn scope() -> RowScope {
    RowScope { namespace_id: 1, space_id_bytes: [7u8; 16] }
}

#[test]
fn round_trips_chain_root_and_version() {
    let root = [0xAB; 16];
    let c = encode_history_cursor(scope(), false, root, 42);
    let got = decode_history_cursor(&c, scope(), false).unwrap();
    assert_eq!(got, Some((root, 42)));
}

#[test]
fn empty_cursor_is_first_page() {
    assert_eq!(decode_history_cursor(&[], scope(), false).unwrap(), None);
}

#[test]
fn toggled_include_tombstoned_is_stale() {
    let c = encode_history_cursor(scope(), false, [1; 16], 3);
    assert!(decode_history_cursor(&c, scope(), true).is_err());
}

#[test]
fn foreign_tenant_cursor_rejected() {
    let c = encode_history_cursor(scope(), false, [1; 16], 3);
    let other = RowScope { namespace_id: 2, space_id_bytes: [7u8; 16] };
    assert!(decode_history_cursor(&c, other, false).is_err());
    let other_space = RowScope { namespace_id: 1, space_id_bytes: [9u8; 16] };
    assert!(decode_history_cursor(&c, other_space, false).is_err());
}

#[test]
fn malformed_cursor_rejected() {
    assert!(decode_history_cursor(&[1, 2, 3], scope(), false).is_err());
    let mut c = encode_history_cursor(scope(), false, [1; 16], 3);
    c[0] = 0xFF;
    assert!(decode_history_cursor(&c, scope(), false).is_err());
}

const NOW: u64 = 1_700_000_000_000_000_500;
const HISTORICAL: u64 = 1_600_000_000_000_000_000;

fn req(kind: StatementKind) -> StatementCreateRequest {
    StatementCreateRequest {
        kind,
        subject: [0u8; 16],
        predicate: "test:role".into(),
        object: StatementObject::Value(StatementValue::Text("x".into())),
        confidence: Single::from_bits(0.9f32.to_bits()),
        evidence: EvidenceRefWire::Inline(Vec::new()),
        extractor_id: 0,
        valid_from_unix_nanos: 0,
        valid_to_unix_nanos: 0,
        event_at_unix_nanos: 0,
        schema_version: 0,
        session_id: 0,
        request_id: [0u8; 16],
        act_as: None,
    }
}

const ID: [u8; 16] = [0x5A; 16];

// An event carrying validity is rejected.
#[test]
fn event_with_valid_from_rejected() {
    let mut r = req(StatementKind::Event);
    r.event_at_unix_nanos = NOW;
    r.valid_from_unix_nanos = HISTORICAL;
    let out = build_statement_from_create(&r, 1, NOW, StatementKind::Event, ID);
    assert!(out.is_err(), "Event with valid_from must be rejected");
}

#[test]
fn event_with_valid_to_rejected() {
    let mut r = req(StatementKind::Event);
    r.event_at_unix_nanos = NOW;
    r.valid_to_unix_nanos = NOW + 10;
    let out = build_statement_from_create(&r, 1, NOW, StatementKind::Event, ID);
    assert!(out.is_err());
}

// An event with only its time is accepted and carries no validity.
#[test]
fn event_with_only_event_at_accepted() {
    let mut r = req(StatementKind::Event);
    r.event_at_unix_nanos = NOW;
    let s = build_statement_from_create(&r, 1, NOW, StatementKind::Event, ID)
        .expect("event accepted");
    assert_eq!(s.event_at_unix_nanos, Some(NOW));
    assert_eq!(s.valid_from_unix_nanos, None);
    assert_eq!(s.valid_to_unix_nanos, None);
}

// The extraction time is the arrival; a historical validity is kept apart.
#[test]
fn fact_extracted_at_is_arrival_not_historical_valid_from() {
    let mut r = req(StatementKind::Fact);
    r.valid_from_unix_nanos = HISTORICAL;
    let s = build_statement_from_create(&r, 1, NOW, StatementKind::Fact, ID)
        .expect("fact accepted");
    assert_eq!(s.extracted_at_unix_nanos, NOW);
    assert_eq!(s.valid_from_unix_nanos, Some(HISTORICAL));
}
