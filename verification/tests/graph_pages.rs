use brain_ops::events::{EdgeKind, EdgeKindRef, NodeRef};
use brain_ops::graph_builder::{
    EdgeSet, EntityLabel, GraphBuilder, MemoryEdge, MentionEdge, RelationEdge, SpineFilter,
    SpineProgress, SpineRow, SpineStatement, MAX_EDGES_PER_ENTITY, MAX_EDGES_PER_MEMORY,
};
use brain_ops::graph_fetch::{
    decode_cursor, StmtKey, EDGE_FACT, EDGE_HAS_STATEMENT, EDGE_MENTIONS, EDGE_RELATION,
    NODE_ENTITY, NODE_MEMORY, NODE_STATEMENT,
};
use brain_ops::scope::RowScope;
use brain_ops::statement::{StatementObject, StatementValue, SubjectRef};

fn key(n: u8) -> StmtKey {
    (7, [1; 16], [2; 16], 0, 5, 1, [n; 16])
}

fn label(name: &str) -> Option<EntityLabel> {
    Some(EntityLabel { name: name.into(), type_qname: "brain:person".into() })
}

fn fact(n: u8, object: StatementObject) -> SpineStatement {
    SpineStatement {
        id: [n; 16],
        tombstoned: false,
        subject: SubjectRef::Entity([0xA; 16]),
        subject_row: label("Priya"),
        predicate: "brain:knows".into(),
        object,
        object_row: label("Sam"),
    }
}

fn spine(n: u8) -> SpineRow {
    SpineRow { key: key(n), statement: Some(fact(n, StatementObject::EntityRef([0xB; 16]))) }
}

fn which() -> SpineFilter {
    let caller = RowScope { namespace_id: 7, space_id_bytes: [1; 16] };
    SpineFilter { caller, include_tombstoned: false }
}

fn start() -> SpineProgress {
    SpineProgress { consumed: 0, last_key: None, has_more: false }
}

#[test]
fn a_page_stops_at_its_limit() {
    let mut b = GraphBuilder::new(false, false, false);
    let gone = SpineRow {
        key: key(9),
        statement: Some(SpineStatement {
            tombstoned: true,
            ..fact(9, StatementObject::EntityRef([0xB; 16]))
        }),
    };
    let missing = SpineRow { key: key(8), statement: None };
    let rows = vec![spine(1), gone, missing, spine(2), spine(3)];
    let p = b.walk_spine(start(), &rows, 2, which());
    assert_eq!(p.consumed, 2);
    assert!(p.has_more);
    assert_eq!(p.last_key, Some(key(2)));
    let page = b.finish(0, p);
    assert_eq!(decode_cursor(&page.next_cursor, 0).unwrap(), key(2));
    let entities = page.nodes.iter().filter(|n| n.kind == NODE_ENTITY).count();
    assert_eq!(entities, 2);
    // The same fact is one edge however often it is stated.
    let facts = page.edges.iter().filter(|e| e.kind == EDGE_FACT).count();
    assert_eq!(facts, 1);
    assert_eq!(page.edges[0].label, "brain:knows");
}

#[test]
fn rows_of_others_are_never_walked() {
    let foreign = |n: u8| {
        let mut row = spine(n);
        row.key.1 = [3; 16];
        row
    };
    let mut b = GraphBuilder::new(false, false, false);
    let p = b.walk_spine(start(), &vec![foreign(1), spine(2), foreign(3)], 1, which());
    assert_eq!((p.consumed, p.has_more), (1, false));
    assert_eq!(p.last_key, Some(key(2)));
    let mut b = GraphBuilder::new(false, false, false);
    let p = b.walk_spine(start(), &vec![foreign(1)], 1, which());
    assert!(b.finish(0, p).nodes.is_empty());
}

#[test]
fn the_last_page_has_no_cursor() {
    let mut b = GraphBuilder::new(false, false, false);
    let p = b.walk_spine(start(), &vec![spine(1)], 2, which());
    assert!(!p.has_more);
    let page = b.finish(0, p);
    assert!(page.next_cursor.is_empty());
    assert!(page.is_final);
}

#[test]
fn statements_are_nodes_where_asked() {
    let mut b = GraphBuilder::new(true, false, false);
    b.emit_statement(&fact(3, StatementObject::Value(StatementValue::Text("tea".into()))));
    let page = b.finish(1, start());
    assert!(page.nodes.iter().any(|n| n.kind == NODE_STATEMENT && n.id == [3; 16]));
    assert!(page.edges.iter().any(|e| e.kind == EDGE_HAS_STATEMENT && e.from_id == [0xA; 16]));
}

#[test]
fn relations_and_mentions() {
    let mut b = GraphBuilder::new(false, true, true);
    b.emit_entity([0xA; 16], &label("Priya"));
    let relation = |other| RelationEdge {
        kind: EdgeKindRef::Typed(4),
        other: NodeRef::Entity(other),
        relation: Some("works_at".into()),
        other_row: label("Stripe"),
    };
    b.walk_entity(
        [0xA; 16],
        &vec![relation([0xC; 16])],
        &vec![relation([0xD; 16])],
        &vec![MentionEdge { from: NodeRef::Memory(5), text: Some("note".into()) }],
    );
    assert_eq!(b.memory_seeds(), vec![5]);
    assert!(b.entity_seeds().contains(&[0xA; 16]));
    let edge = |other| MemoryEdge {
        kind: EdgeKindRef::Builtin(EdgeKind::SimilarTo),
        other: NodeRef::Memory(other),
        text: Some("other".into()),
    };
    b.walk_memory(5, &vec![edge(4)], &vec![edge(4)]);
    let page = b.finish(0, start());
    let relations: Vec<_> = page.edges.iter().filter(|e| e.kind == EDGE_RELATION).collect();
    assert_eq!(relations.len(), 2);
    assert!(relations.iter().any(|e| e.from_id == [0xA; 16] && e.to_id == [0xC; 16]));
    assert!(relations.iter().any(|e| e.from_id == [0xD; 16] && e.to_id == [0xA; 16]));
    assert_eq!(page.edges.iter().filter(|e| e.kind == EDGE_MENTIONS).count(), 1);
    assert!(page.nodes.iter().any(|n| n.kind == NODE_MEMORY && n.label == "note"));
    // A symmetric pair is one edge, lower id first.
    let similar: Vec<_> = page.edges.iter().filter(|e| e.label == "similar_to").collect();
    assert_eq!(similar.len(), 1);
    assert_eq!(similar[0].from_id, 4u128.to_be_bytes());
    // Every end of every edge is on the page.
    for e in &page.edges {
        assert!(page.nodes.iter().any(|n| n.id == e.from_id));
        assert!(page.nodes.iter().any(|n| n.id == e.to_id));
    }
}

#[test]
fn relations_of_two_types_are_two_edges() {
    let mut b = GraphBuilder::new(false, false, false);
    b.emit_entity([0xA; 16], &label("Priya"));
    let relation = |name: &str| RelationEdge {
        kind: EdgeKindRef::Typed(4),
        other: NodeRef::Entity([0xC; 16]),
        relation: Some(name.into()),
        other_row: label("Stripe"),
    };
    let out = vec![relation("works_at"), relation("founded"), relation("works_at")];
    b.walk_entity([0xA; 16], &out, &Vec::new(), &Vec::new());
    let page = b.finish(0, start());
    let types: Vec<&str> = page.edges.iter().map(|e| e.label.as_str()).collect();
    assert_eq!(types, vec!["works_at", "founded"]);
}

#[test]
fn edge_sets_hold_each_edge_once() {
    let mut s = EdgeSet::new();
    assert!(s.insert(1, 2, 0, "knows"));
    assert!(!s.insert(1, 2, 0, "knows"));
    assert!(s.insert(1, 2, 1, "knows"));
    assert!(s.insert(2, 1, 0, "knows"));
    assert!(s.insert(1, 2, 0, "manages"));
    assert!(!s.insert(1, 2, 0, "manages"));
}

#[test]
fn pages_together_show_every_statement() {
    let text = |n: u8| SpineRow {
        key: key(n),
        statement: Some(fact(n, StatementObject::Value(StatementValue::Integer(n as i64)))),
    };
    let hidden = SpineRow {
        key: key(3),
        statement: Some(SpineStatement {
            tombstoned: true,
            ..fact(3, StatementObject::EntityRef([0xB; 16]))
        }),
    };
    let rows = vec![text(1), text(2), hidden, text(4), text(5), text(6)];
    let mut shown: Vec<[u8; 16]> = Vec::new();
    let mut pages = 0;
    let mut from = 0;
    loop {
        let mut b = GraphBuilder::new(true, false, false);
        let left: Vec<SpineRow> = rows[from..]
            .iter()
            .map(|r| SpineRow {
                key: r.key,
                statement: r.statement.as_ref().map(|s| SpineStatement {
                    tombstoned: s.tombstoned,
                    ..fact(s.id[0], StatementObject::Value(StatementValue::Integer(0)))
                }),
            })
            .collect();
        let p = b.walk_spine(start(), &left, 2, which());
        let page = b.finish(0, p);
        pages += 1;
        shown.extend(page.nodes.iter().filter(|n| n.kind == NODE_STATEMENT).map(|n| n.id));
        if page.next_cursor.is_empty() {
            break;
        }
        let last = decode_cursor(&page.next_cursor, 0).unwrap();
        from = rows.iter().position(|r| r.key == last).unwrap() + 1;
    }
    assert_eq!(pages, 3);
    assert_eq!(shown, vec![[1; 16], [2; 16], [4; 16], [5; 16], [6; 16]]);
}

#[test]
fn hubs_show_their_edges_up_to_the_cap() {
    let relation = |n: usize| RelationEdge {
        kind: EdgeKindRef::Typed(4),
        other: NodeRef::Entity((n as u128 + 1000).to_be_bytes()),
        relation: Some("knows".into()),
        other_row: None,
    };
    let mention =
        |n: usize| MentionEdge { from: NodeRef::Memory(n as u128 + 5000), text: None };
    let link = |n: usize| MemoryEdge {
        kind: EdgeKindRef::Builtin(EdgeKind::FollowedBy),
        other: NodeRef::Memory(n as u128 + 9000),
        text: None,
    };
    let cap = MAX_EDGES_PER_ENTITY;
    let mut b = GraphBuilder::new(false, true, true);
    b.emit_entity([0xA; 16], &label("Priya"));
    let out: Vec<_> = (0..cap - 1).map(relation).collect();
    let back: Vec<_> = (cap..cap + 2).map(relation).collect();
    b.walk_entity([0xA; 16], &out, &back, &(0..cap + 1).map(mention).collect());
    b.walk_memory(5000, &(0..MAX_EDGES_PER_MEMORY + 1).map(link).collect(), &Vec::new());
    let page = b.finish(0, start());
    let of = |kind| page.edges.iter().filter(|e| e.kind == kind).count();
    assert_eq!((of(EDGE_RELATION), of(EDGE_MENTIONS)), (cap, cap));
    let first_back = (cap as u128 + 1000).to_be_bytes();
    assert!(page.edges.iter().any(|e| e.from_id == first_back && e.to_id == [0xA; 16]));
    let links = page.edges.iter().filter(|e| e.label == "followed_by").count();
    assert_eq!(links, MAX_EDGES_PER_MEMORY);
}
