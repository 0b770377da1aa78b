use brain_ops::encode_graph::{
    encode_artifacts_to_graph, EncodeStageGraph, EncodeTraceArtifacts, EncodeTraceDedup,
    EncodeTraceEntity, EncodeTraceStatement,
};
use brain_ops::single::Single;

fn single(x: f32) -> Single {
    Single::from_bits(x.to_bits())
}

fn priya_id() -> [u8; 16] {
    [1u8; 16]
}

/// The id of a literal node: a digest of what the statement says.
fn literal_node_id(subject: [u8; 16], predicate: &str, object: &str) -> [u8; 16] {
    let mut h = blake3::Hasher::new();
    h.update(&subject);
    h.update(predicate.as_bytes());
    h.update(&[0]);
    h.update(object.as_bytes());
    h.finalize().as_bytes()[..16].try_into().unwrap()
}

fn graph_of(artifacts: &EncodeTraceArtifacts) -> EncodeStageGraph {
    encode_artifacts_to_graph(artifacts, &literal_node_id)
}

fn manages() -> EncodeTraceStatement {
    EncodeTraceStatement {
        id: [2u8; 16],
        subject_name: "Priya".into(),
        predicate: "manages".into(),
        object_name: "the billing platform team".into(),
        confidence: single(0.9),
        event_at_unix_nanos: None,
    }
}

/// "Priya manages the billing platform team": a subject entity and a
/// statement whose object is a literal with no matching entity.
fn literal_object_artifacts() -> EncodeTraceArtifacts {
    EncodeTraceArtifacts {
        entities: vec![EncodeTraceEntity {
            id: priya_id(),
            name: "Priya".into(),
            type_qname: "brain:person".into(),
        }],
        statements: vec![manages()],
        relations: Vec::new(),
        indexes: Vec::new(),
        dedup: EncodeTraceDedup { was_deduplicated: false, matched_memory_id: None },
    }
}

#[test]
fn literal_statement_object_renders_as_literal_node() {
    let artifacts = literal_object_artifacts();
    let graph = graph_of(&artifacts);

    let literal_node = graph
        .nodes
        .iter()
        .find(|n| n.kind == "literal")
        .expect("a literal node must be synthesized for the literal-object statement");
    assert_eq!(literal_node.name, "the billing platform team");
    assert_eq!(literal_node.type_qname, "");
    assert_ne!(literal_node.id, [0u8; 16], "must not be the zero placeholder");

    let edge = &graph.edges[0];
    assert_eq!(edge.kind, "statement");
    assert_eq!(edge.source, priya_id());
    assert_eq!(
        edge.target, literal_node.id,
        "edge target must point at the synthetic literal node, not the zero id"
    );

    // Exactly one entity node (Priya) plus one literal node.
    assert_eq!(graph.nodes.len(), 2);
}

#[test]
fn literal_node_id_is_deterministic() {
    let artifacts = literal_object_artifacts();
    let first = graph_of(&artifacts);
    let second = graph_of(&artifacts);

    let first_id = first.nodes.iter().find(|n| n.kind == "literal").expect("literal node").id;
    let second_id = second.nodes.iter().find(|n| n.kind == "literal").expect("literal node").id;
    assert_eq!(
        first_id, second_id,
        "the same fact inspected twice must synthesize the same literal node id"
    );
}

#[test]
fn repeated_literal_value_dedupes_to_one_node() {
    let mut artifacts = literal_object_artifacts();
    // The same literal fact restated must not mint a second node.
    artifacts.statements.push(manages());
    let graph = graph_of(&artifacts);

    let literal_nodes: Vec<_> = graph.nodes.iter().filter(|n| n.kind == "literal").collect();
    assert_eq!(literal_nodes.len(), 1, "duplicate literal facts dedupe to one node");
    assert_eq!(graph.edges.len(), 2, "both statement edges are still emitted");
    assert_eq!(graph.edges[0].target, graph.edges[1].target);
}

#[test]
fn entity_statement_object_resolves_to_real_entity_node() {
    let artifacts = EncodeTraceArtifacts {
        entities: vec![
            EncodeTraceEntity {
                id: priya_id(),
                name: "Priya".into(),
                type_qname: "brain:person".into(),
            },
            EncodeTraceEntity {
                id: [3u8; 16],
                name: "Stripe".into(),
                type_qname: "brain:org".into(),
            },
        ],
        statements: vec![EncodeTraceStatement {
            id: [2u8; 16],
            subject_name: "Priya".into(),
            predicate: "works_at".into(),
            object_name: "Stripe".into(),
            confidence: single(0.95),
            event_at_unix_nanos: None,
        }],
        relations: Vec::new(),
        indexes: Vec::new(),
        dedup: EncodeTraceDedup { was_deduplicated: false, matched_memory_id: None },
    };
    let graph = graph_of(&artifacts);

    assert!(
        graph.nodes.iter().all(|n| n.kind != "literal"),
        "an entity-object statement must not synthesize a literal node"
    );
    assert_eq!(graph.edges[0].target, [3u8; 16]);
}
