//! What a write derived: its typed rows, and the graph they make.
use vstd::prelude::*;

use crate::bytes::{eq16, nil_id, zero_id};
use crate::events::memory_id_bytes;
use crate::recall::GraphEnrichment;
use crate::single::{Single, ONE_BITS};
use crate::text::same_text;

verus! {

#[derive(Debug)]
pub struct EncodeTraceEntity {
    pub id: [u8; 16],
    pub name: String,
    pub type_qname: String,
}

#[derive(Debug)]
pub struct EncodeTraceStatement {
    pub id: [u8; 16],
    pub subject_name: String,
    pub predicate: String,
    pub object_name: String,
    pub confidence: Single,
    pub event_at_unix_nanos: Option<u64>,
}

#[derive(Debug)]
pub struct EncodeTraceRelation {
    pub source_name: String,
    pub predicate: String,
    pub target_name: String,
}

/// How a stage of a write ended, as its trace tells.
#[derive(Clone, Copy, Debug, PartialEq, Eq, Structural)]
pub enum EncodeTraceStageStatus {
    Done,
    Skipped,
    Failed,
    Timeout,
}

#[derive(Debug)]
pub struct EncodeTraceIndex {
    pub name: String,
    pub status: EncodeTraceStageStatus,
}

#[derive(Clone, Copy, Debug, PartialEq, Eq)]
pub struct EncodeTraceDedup {
    pub was_deduplicated: bool,
    pub matched_memory_id: Option<[u8; 16]>,
}

#[derive(Debug)]
pub struct EncodeTraceArtifacts {
    pub entities: Vec<EncodeTraceEntity>,
    pub statements: Vec<EncodeTraceStatement>,
    pub relations: Vec<EncodeTraceRelation>,
    pub indexes: Vec<EncodeTraceIndex>,
    pub dedup: EncodeTraceDedup,
}

#[derive(Debug)]
pub struct EncodeGraphNode {
    pub id: [u8; 16],
    pub name: String,
    pub kind: String,
    pub type_qname: String,
}

#[derive(Debug)]
pub struct EncodeGraphEdge {
    pub source: [u8; 16],
    pub target: [u8; 16],
    pub predicate: String,
    pub kind: String,
    pub confidence: Single,
    pub event_at_unix_nanos: Option<u64>,
}

#[derive(Debug)]
pub struct EncodeStageGraph {
    pub nodes: Vec<EncodeGraphNode>,
    pub edges: Vec<EncodeGraphEdge>,
}

/// A node as characters.
pub struct NodeView {
    pub id: [u8; 16],
    pub name: Seq<char>,
    pub kind: Seq<char>,
    pub type_qname: Seq<char>,
}

/// An edge as characters.
pub struct EdgeView {
    pub source: [u8; 16],
    pub target: [u8; 16],
    pub predicate: Seq<char>,
    pub kind: Seq<char>,
    pub confidence: Single,
    pub event_at_unix_nanos: Option<u64>,
}

impl View for EncodeGraphNode {
    type V = NodeView;

    open spec fn view(&self) -> NodeView {
        NodeView {
            id: self.id,
            name: self.name@,
            kind: self.kind@,
            type_qname: self.type_qname@,
        }
    }
}

impl View for EncodeGraphEdge {
    type V = EdgeView;

    open spec fn view(&self) -> EdgeView {
        EdgeView {
            source: self.source,
            target: self.target,
            predicate: self.predicate@,
            kind: self.kind@,
            confidence: self.confidence,
            event_at_unix_nanos: self.event_at_unix_nanos,
        }
    }
}

/// The nodes of a list, as characters.
pub open spec fn node_views(v: Seq<EncodeGraphNode>) -> Seq<NodeView> {
    v.map_values(|n: EncodeGraphNode| n@)
}

/// The edges of a list, as characters.
pub open spec fn edge_views(v: Seq<EncodeGraphEdge>) -> Seq<EdgeView> {
    v.map_values(|e: EncodeGraphEdge| e@)
}

/// The nodes of the entities.
pub open spec fn entity_nodes(entities: Seq<EncodeTraceEntity>) -> Seq<NodeView> {
    entities.map_values(
        |e: EncodeTraceEntity|
            NodeView {
                id: e.id,
                name: e.name@,
                kind: "entity"@,
                type_qname: e.type_qname@,
            },
    )
}

/// The entity of a name; of several, the last.
pub open spec fn named(entities: Seq<EncodeTraceEntity>, name: Seq<char>) -> Option<[u8; 16]>
    decreases entities.len(),
{
    if entities.len() == 0 {
        None
    } else if entities.last().name@ == name {
        Some(entities.last().id)
    } else {
        named(entities.drop_last(), name)
    }
}

/// The entity of a name, or the zero id.
pub open spec fn endpoint(entities: Seq<EncodeTraceEntity>, name: Seq<char>) -> [u8; 16] {
    match named(entities, name) {
        Some(id) => id,
        None => zero_id(),
    }
}

/// The id of a literal: a function of the subject, the predicate and the text.
pub type LiteralId = spec_fn([u8; 16], Seq<char>, Seq<char>) -> [u8; 16];

/// Where a statement points: an entity of that name, or a literal.
pub open spec fn statement_target(
    entities: Seq<EncodeTraceEntity>,
    s: EncodeTraceStatement,
    lit: LiteralId,
) -> [u8; 16] {
    match named(entities, s.object_name@) {
        Some(id) => id,
        None => lit(endpoint(entities, s.subject_name@), s.predicate@, s.object_name@),
    }
}

/// The edge of a statement.
pub open spec fn statement_edge(
    entities: Seq<EncodeTraceEntity>,
    s: EncodeTraceStatement,
    lit: LiteralId,
) -> EdgeView {
    EdgeView {
        source: endpoint(entities, s.subject_name@),
        target: statement_target(entities, s, lit),
        predicate: s.predicate@,
        kind: "statement"@,
        confidence: s.confidence,
        event_at_unix_nanos: s.event_at_unix_nanos,
    }
}

/// Whether a node of a list has an id.
pub open spec fn has_node(nodes: Seq<NodeView>, id: [u8; 16]) -> bool {
    exists|i: int| 0 <= i < nodes.len() && (#[trigger] nodes[i]).id == id
}

/// The nodes of the literals that statements point at, each once.
pub open spec fn literal_nodes(
    entities: Seq<EncodeTraceEntity>,
    statements: Seq<EncodeTraceStatement>,
    lit: LiteralId,
) -> Seq<NodeView>
    decreases statements.len(),
{
    if statements.len() == 0 {
        Seq::empty()
    } else {
        let before = literal_nodes(entities, statements.drop_last(), lit);
        let s = statements.last();
        let id = statement_target(entities, s, lit);
        if named(entities, s.object_name@) is None && !has_node(before, id) {
            before.push(
                NodeView {
                    id,
                    name: s.object_name@,
                    kind: "literal"@,
                    type_qname: Seq::empty(),
                },
            )
        } else {
            before
        }
    }
}

/// The edge of a relation, which has no event time and is always sure.
pub open spec fn relation_edge(
    entities: Seq<EncodeTraceEntity>,
    r: EncodeTraceRelation,
) -> EdgeView {
    EdgeView {
        source: endpoint(entities, r.source_name@),
        target: endpoint(entities, r.target_name@),
        predicate: r.predicate@,
        kind: "relation"@,
        confidence: Single { bits: ONE_BITS },
        event_at_unix_nanos: None,
    }
}

/// The nodes of a write's graph.
pub open spec fn graph_nodes(a: EncodeTraceArtifacts, lit: LiteralId) -> Seq<NodeView> {
    entity_nodes(a.entities@) + literal_nodes(a.entities@, a.statements@, lit)
}

/// The edges of a write's graph.
pub open spec fn graph_edges(a: EncodeTraceArtifacts, lit: LiteralId) -> Seq<EdgeView> {
    a.statements@.map_values(|s: EncodeTraceStatement| statement_edge(a.entities@, s, lit))
        + a.relations@.map_values(|r: EncodeTraceRelation| relation_edge(a.entities@, r))
}

/// Whether a closure mints these literal ids.
pub open spec fn mints<F: Fn([u8; 16], &str, &str) -> [u8; 16]>(f: F, lit: LiteralId) -> bool {
    forall|s: [u8; 16], p: &str, o: &str, r: [u8; 16]| #[trigger]
        call_ensures(f, (s, p, o), r) ==> r == lit(s, p@, o@)
}

fn lookup(entities: &Vec<EncodeTraceEntity>, name: &str) -> (r: Option<[u8; 16]>)
    ensures
        r == named(entities@, name@),
{
    let mut found: Option<[u8; 16]> = None;
    for i in 0..entities.len()
        invariant
            found == named(entities@.take(i as int), name@),
    {
        assert(entities@.take(i + 1).drop_last() =~= entities@.take(i as int));
        if same_text(&entities[i].name, name) {
            found = Some(entities[i].id);
        }
    }
    assert(entities@.take(entities@.len() as int) =~= entities@);
    found
}

fn lookup_or_nil(entities: &Vec<EncodeTraceEntity>, name: &str) -> (r: [u8; 16])
    ensures
        r == endpoint(entities@, name@),
{
    match lookup(entities, name) {
        Some(id) => id,
        None => nil_id(),
    }
}

fn node_listed(nodes: &Vec<EncodeGraphNode>, id: &[u8; 16]) -> (r: bool)
    ensures
        r == has_node(node_views(nodes@), *id),
{
    for i in 0..nodes.len()
        invariant
            forall|k: int| 0 <= k < i ==> (#[trigger] node_views(nodes@)[k]).id != *id,
    {
        assert(node_views(nodes@)[i as int].id == nodes@[i as int].id);
        if eq16(&nodes[i].id, id) {
            return true;
        }
    }
    false
}

/// Turns the rows that a write derived into a graph. Entities become nodes;
/// statements and relations become edges between them, found by name. A
/// statement object that is no entity of the write becomes a literal node,
/// once; `literal_node_id` mints its id. A relation end that is no entity
/// points at the zero id.
pub fn encode_artifacts_to_graph<F: Fn([u8; 16], &str, &str) -> [u8; 16]>(
    artifacts: &EncodeTraceArtifacts,
    literal_node_id: &F,
) -> (r: EncodeStageGraph)
    requires
        forall|s: [u8; 16], p: &str, o: &str| #[trigger]
            call_requires(*literal_node_id, (s, p, o)),
    ensures
        forall|lit: LiteralId| #[trigger]
            mints(*literal_node_id, lit) ==> node_views(r.nodes@) == graph_nodes(*artifacts, lit)
                && edge_views(r.edges@) == graph_edges(*artifacts, lit),
{
    let entities = &artifacts.entities;
    let mut nodes: Vec<EncodeGraphNode> = Vec::new();
    for i in 0..entities.len()
        invariant
            *entities == artifacts.entities,
            node_views(nodes@) == entity_nodes(entities@).take(i as int),
    {
        let ghost before = nodes@;
        let e = &entities[i];
        let node = EncodeGraphNode {
            id: e.id,
            name: e.name.clone(),
            kind: "entity".to_owned(),
            type_qname: e.type_qname.clone(),
        };
        nodes.push(node);
        assert(node_views(nodes@) =~= node_views(before).push(node@));
        assert(node@ == entity_nodes(entities@)[i as int]);
        assert(node_views(nodes@) =~= entity_nodes(entities@).take(i + 1));
    }
    assert(entity_nodes(entities@).take(entities@.len() as int) =~= entity_nodes(entities@));
    let mut literals: Vec<EncodeGraphNode> = Vec::new();
    let mut edges: Vec<EncodeGraphEdge> = Vec::new();
    let statements = &artifacts.statements;
    assert(node_views(literals@) =~= Seq::empty());
    for i in 0..statements.len()
        invariant
            *entities == artifacts.entities,
            *statements == artifacts.statements,
            forall|s: [u8; 16], p: &str, o: &str| #[trigger]
                call_requires(*literal_node_id, (s, p, o)),
            edges@.len() == i,
            forall|lit: LiteralId| #[trigger]
                mints(*literal_node_id, lit) ==> node_views(literals@) == literal_nodes(
                    entities@,
                    statements@.take(i as int),
                    lit,
                ),
            forall|lit: LiteralId, k: int|
                #![trigger mints(*literal_node_id, lit), edges@[k]]
                mints(*literal_node_id, lit) && 0 <= k < i ==> edges@[k]@ == statement_edge(
                    entities@,
                    statements@[k],
                    lit,
                ),
    {
        assert(statements@.take(i + 1).drop_last() =~= statements@.take(i as int));
        let s = &statements[i];
        let source = lookup_or_nil(entities, &s.subject_name);
        let ghost before = literals@;
        let target = match lookup(entities, &s.object_name) {
            Some(id) => id,
            None => {
                let id = literal_node_id(source, s.predicate.as_str(), s.object_name.as_str());
                if !node_listed(&literals, &id) {
                    let node = EncodeGraphNode {
                        id,
                        name: s.object_name.clone(),
                        kind: "literal".to_owned(),
                        type_qname: String::new(),
                    };
                    assert(node.type_qname@ =~= Seq::<char>::empty());
                    literals.push(node);
                    assert(node_views(literals@) =~= node_views(before).push(node@));
                }
                id
            },
        };
        let ghost edges_before = edges@;
        edges.push(
            EncodeGraphEdge {
                source,
                target,
                predicate: s.predicate.clone(),
                kind: "statement".to_owned(),
                confidence: s.confidence,
                event_at_unix_nanos: s.event_at_unix_nanos,
            },
        );
        proof {
            assert forall|lit: LiteralId| #[trigger]
                mints(*literal_node_id, lit) implies node_views(literals@) == literal_nodes(
                entities@,
                statements@.take(i + 1),
                lit,
            ) && edges@[i as int]@ == statement_edge(entities@, statements@[i as int], lit) by {
                assert(target == statement_target(entities@, *s, lit));
            }
            assert forall|lit: LiteralId, k: int|
                #![trigger mints(*literal_node_id, lit), edges@[k]]
                mints(*literal_node_id, lit) && 0 <= k < i + 1 implies edges@[k]@ == statement_edge(
                entities@,
                statements@[k],
                lit,
            ) by {
                if k < i {
                    assert(edges@[k] == edges_before[k]);
                }
            }
        }
    }
    assert(statements@.take(statements@.len() as int) =~= statements@);
    let relations = &artifacts.relations;
    let n: usize = statements.len();
    for i in 0..relations.len()
        invariant
            *entities == artifacts.entities,
            *statements == artifacts.statements,
            *relations == artifacts.relations,
            n == statements@.len(),
            edges@.len() == n + i,
            forall|lit: LiteralId, k: int|
                #![trigger mints(*literal_node_id, lit), edges@[k]]
                mints(*literal_node_id, lit) && 0 <= k < n ==> edges@[k]@ == statement_edge(
                    entities@,
                    statements@[k],
                    lit,
                ),
            forall|k: int|
                n <= k < n + i ==> (#[trigger] edges@[k])@ == relation_edge(
                    entities@,
                    relations@[k - n],
                ),
    {
        let rel = &relations[i];
        let ghost edges_before = edges@;
        edges.push(
            EncodeGraphEdge {
                source: lookup_or_nil(entities, &rel.source_name),
                target: lookup_or_nil(entities, &rel.target_name),
                predicate: rel.predicate.clone(),
                kind: "relation".to_owned(),
                confidence: Single { bits: ONE_BITS },
                event_at_unix_nanos: None,
            },
        );
        proof {
            assert forall|lit: LiteralId, k: int|
                #![trigger mints(*literal_node_id, lit), edges@[k]]
                mints(*literal_node_id, lit) && 0 <= k < n implies edges@[k]@ == statement_edge(
                entities@,
                statements@[k],
                lit,
            ) by {
                assert(edges@[k] == edges_before[k]);
            }
            assert forall|k: int| n <= k < n + i + 1 implies (#[trigger] edges@[k])@
                == relation_edge(entities@, relations@[k - n]) by {
                if k < n + i {
                    assert(edges@[k] == edges_before[k]);
                }
            }
        }
    }
    let ghost first = nodes@;
    let ghost second = literals@;
    nodes.append(&mut literals);
    proof {
        assert(nodes@ =~= first + second);
        assert(node_views(nodes@) =~= node_views(first) + node_views(second));
        assert forall|lit: LiteralId| #[trigger] mints(*literal_node_id, lit) implies node_views(
            nodes@,
        ) == graph_nodes(*artifacts, lit) && edge_views(edges@) == graph_edges(*artifacts, lit) by {
            assert forall|k: int| 0 <= k < n implies (#[trigger] edges@[k])@ == statement_edge(
                entities@,
                statements@[k],
                lit,
            ) by {}
            assert(edge_views(edges@) =~= graph_edges(*artifacts, lit));
        }
    }
    EncodeStageGraph { nodes, edges }
}

/// A name that resolves gives the id of a node.
proof fn named_is_listed(entities: Seq<EncodeTraceEntity>, name: Seq<char>)
    ensures
        named(entities, name) matches Some(id) ==> has_node(entity_nodes(entities), id),
    decreases entities.len(),
{
    if entities.len() > 0 {
        if entities.last().name@ == name {
            assert(entity_nodes(entities)[entities.len() - 1].id == entities.last().id);
        } else {
            named_is_listed(entities.drop_last(), name);
            if let Some(id) = named(entities, name) {
                let front = entity_nodes(entities.drop_last());
                let i = choose|i: int| 0 <= i < front.len() && (#[trigger] front[i]).id == id;
                assert(entity_nodes(entities)[i].id == id);
            }
        }
    }
}

proof fn literals_are_listed(
    entities: Seq<EncodeTraceEntity>,
    statements: Seq<EncodeTraceStatement>,
    lit: LiteralId,
    k: int,
)
    requires
        0 <= k < statements.len(),
        named(entities, statements[k].object_name@) is None,
    ensures
        has_node(
            literal_nodes(entities, statements, lit),
            statement_target(entities, statements[k], lit),
        ),
    decreases statements.len(),
{
    let all = literal_nodes(entities, statements, lit);
    let before = literal_nodes(entities, statements.drop_last(), lit);
    let id = statement_target(entities, statements[k], lit);
    if k < statements.len() - 1 {
        literals_are_listed(entities, statements.drop_last(), lit, k);
        let i = choose|i: int| 0 <= i < before.len() && (#[trigger] before[i]).id == id;
        assert(all[i] == before[i]);
    } else {
        if has_node(before, id) {
            let i = choose|i: int| 0 <= i < before.len() && (#[trigger] before[i]).id == id;
            assert(all[i] == before[i]);
        } else {
            assert(all[before.len() as int].id == id);
        }
    }
}

/// Every statement's edge points at a node of the graph, so that the rendered
/// graph carries the real value of every fact.
pub proof fn statements_point_at_nodes(a: EncodeTraceArtifacts, lit: LiteralId, k: int)
    requires
        0 <= k < a.statements@.len(),
    ensures
        has_node(graph_nodes(a, lit), graph_edges(a, lit)[k].target),
{
    let s = a.statements@[k];
    let id = statement_target(a.entities@, s, lit);
    let first = entity_nodes(a.entities@);
    let second = literal_nodes(a.entities@, a.statements@, lit);
    let all = graph_nodes(a, lit);
    assert(graph_edges(a, lit)[k].target == id);
    if named(a.entities@, s.object_name@) is Some {
        named_is_listed(a.entities@, s.object_name@);
        let i = choose|i: int| 0 <= i < first.len() && (#[trigger] first[i]).id == id;
        assert(all[i] == first[i]);
    } else {
        literals_are_listed(a.entities@, a.statements@, lit, k);
        let i = choose|i: int| 0 <= i < second.len() && (#[trigger] second[i]).id == id;
        assert(all[first.len() + i] == second[i]);
    }
}

/// No literal has two nodes, however often it is stated.
pub proof fn literals_have_one_node(
    entities: Seq<EncodeTraceEntity>,
    statements: Seq<EncodeTraceStatement>,
    lit: LiteralId,
)
    ensures
        forall|i: int, j: int|
            #![trigger literal_nodes(entities, statements, lit)[i], literal_nodes(
                entities,
                statements,
                lit,
            )[j]]
            0 <= i < j < literal_nodes(entities, statements, lit).len() ==> literal_nodes(
                entities,
                statements,
                lit,
            )[i].id != literal_nodes(entities, statements, lit)[j].id,
    decreases statements.len(),
{
    if statements.len() > 0 {
        literals_have_one_node(entities, statements.drop_last(), lit);
        let before = literal_nodes(entities, statements.drop_last(), lit);
        let all = literal_nodes(entities, statements, lit);
        assert forall|i: int, j: int|
            #![trigger all[i], all[j]]
            0 <= i < j < all.len() implies all[i].id != all[j].id by {
            assert(all[i] == before[i]);
            if j < before.len() {
                assert(all[j] == before[j]);
            }
        }
    }
}

// The rows of a write.

/// An index status: done where the index is there, else skipped.
pub open spec fn done_or_skipped(present: bool) -> EncodeTraceStageStatus {
    if present {
        EncodeTraceStageStatus::Done
    } else {
        EncodeTraceStageStatus::Skipped
    }
}

fn status_of(present: bool) -> (r: EncodeTraceStageStatus)
    ensures
        r == done_or_skipped(present),
{
    if present {
        EncodeTraceStageStatus::Done
    } else {
        EncodeTraceStageStatus::Skipped
    }
}

/// Whether artifacts hold the rows of an enrichment, one for one.
pub open spec fn holds_rows(a: EncodeTraceArtifacts, g: GraphEnrichment) -> bool {
    &&& a.entities@.len() == g.entities@.len()
    &&& forall|i: int|
        0 <= i < a.entities@.len() ==> {
            let x = #[trigger] a.entities@[i];
            let y = g.entities@[i];
            x.id == y.id && x.name == y.name && x.type_qname == y.type_qname
        }
    &&& a.statements@.len() == g.statements@.len()
    &&& forall|i: int|
        0 <= i < a.statements@.len() ==> {
            let x = #[trigger] a.statements@[i];
            let y = g.statements@[i];
            x.id == y.id && x.subject_name == y.subject_name && x.predicate == y.predicate
                && x.object_name == y.object_label && x.confidence == y.confidence
                && x.event_at_unix_nanos == y.event_at_unix_nanos
        }
    &&& a.relations@.len() == g.relations@.len()
    &&& forall|i: int|
        0 <= i < a.relations@.len() ==> {
            let x = #[trigger] a.relations@[i];
            let y = g.relations@[i];
            x.source_name == y.from_name && x.predicate == y.predicate && x.target_name == y.to_name
        }
}

/// Whether an index list holds an index with a status.
pub open spec fn is_index(
    i: EncodeTraceIndex,
    name: Seq<char>,
    status: EncodeTraceStageStatus,
) -> bool {
    i.name@ == name && i.status == status
}

/// Whether the artifacts of an encode are those of its graph.
pub open spec fn collects_artifacts(
    r: EncodeTraceArtifacts,
    enrichment: Option<GraphEnrichment>,
    memory_text: bool,
    statement_text: bool,
    was_deduplicated: bool,
    matched_memory_id: Option<u128>,
) -> bool {
    &&& (enrichment matches Some(g) ==> holds_rows(r, g))
    &&& (enrichment is None ==> r.entities@.len() == 0 && r.statements@.len() == 0
        && r.relations@.len() == 0)
    &&& r.indexes@.len() == 3
    &&& is_index(r.indexes@[0], "memory_hnsw"@, EncodeTraceStageStatus::Done)
    &&& is_index(r.indexes@[1], "memory_text"@, done_or_skipped(memory_text))
    &&& is_index(
        r.indexes@[2],
        "statement_text"@,
        done_or_skipped(r.statements@.len() > 0 && statement_text),
    )
    &&& r.dedup.was_deduplicated == was_deduplicated
    &&& (matched_memory_id is None <==> r.dedup.matched_memory_id is None)
    &&& (matched_memory_id matches Some(id) ==> r.dedup.matched_memory_id->0@
        == crate::bytes::be_bytes(id as nat, 16))
}

/// The artifacts of a write, from what the typed graph knows of its memory;
/// `None` where that could not be read. The vector index always has the
/// memory; the text indexes only where they are wired, the statement index
/// only where there are statements.
pub fn build_encode_artifacts(
    enrichment: Option<GraphEnrichment>,
    memory_text: bool,
    statement_text: bool,
    was_deduplicated: bool,
    matched_memory_id: Option<u128>,
) -> (r: EncodeTraceArtifacts)
    ensures
        collects_artifacts(r, enrichment, memory_text, statement_text, was_deduplicated, matched_memory_id),
{
    let mut entities: Vec<EncodeTraceEntity> = Vec::new();
    let mut statements: Vec<EncodeTraceStatement> = Vec::new();
    let mut relations: Vec<EncodeTraceRelation> = Vec::new();
    match &enrichment {
        Some(g) => {
            for i in 0..g.entities.len()
                invariant
                    entities@.len() == i,
                    forall|k: int|
                        0 <= k < i ==> {
                            let x = #[trigger] entities@[k];
                            let y = g.entities@[k];
                            x.id == y.id && x.name == y.name && x.type_qname == y.type_qname
                        },
            {
                let e = &g.entities[i];
                entities.push(
                    EncodeTraceEntity {
                        id: e.id,
                        name: e.name.clone(),
                        type_qname: e.type_qname.clone(),
                    },
                );
            }
            for i in 0..g.statements.len()
                invariant
                    statements@.len() == i,
                    forall|k: int|
                        0 <= k < i ==> {
                            let x = #[trigger] statements@[k];
                            let y = g.statements@[k];
                            x.id == y.id && x.subject_name == y.subject_name && x.predicate
                                == y.predicate && x.object_name == y.object_label && x.confidence
                                == y.confidence && x.event_at_unix_nanos == y.event_at_unix_nanos
                        },
            {
                let s = &g.statements[i];
                statements.push(
                    EncodeTraceStatement {
                        id: s.id,
                        subject_name: s.subject_name.clone(),
                        predicate: s.predicate.clone(),
                        object_name: s.object_label.clone(),
                        confidence: s.confidence,
                        event_at_unix_nanos: s.event_at_unix_nanos,
                    },
                );
            }
            for i in 0..g.relations.len()
                invariant
                    relations@.len() == i,
                    forall|k: int|
                        0 <= k < i ==> {
                            let x = #[trigger] relations@[k];
                            let y = g.relations@[k];
                            x.source_name == y.from_name && x.predicate == y.predicate
                                && x.target_name == y.to_name
                        },
            {
                let rel = &g.relations[i];
                relations.push(
                    EncodeTraceRelation {
                        source_name: rel.from_name.clone(),
                        predicate: rel.predicate.clone(),
                        target_name: rel.to_name.clone(),
                    },
                );
            }
        },
        None => {},
    }
    let mut indexes: Vec<EncodeTraceIndex> = Vec::new();
    indexes.push(
        EncodeTraceIndex { name: "memory_hnsw".to_owned(), status: EncodeTraceStageStatus::Done },
    );
    indexes.push(
        EncodeTraceIndex { name: "memory_text".to_owned(), status: status_of(memory_text) },
    );
    indexes.push(
        EncodeTraceIndex {
            name: "statement_text".to_owned(),
            status: status_of(statements.len() > 0 && statement_text),
        },
    );
    let matched = match matched_memory_id {
        Some(id) => Some(memory_id_bytes(id)),
        None => None,
    };
    EncodeTraceArtifacts {
        entities,
        statements,
        relations,
        indexes,
        dedup: EncodeTraceDedup { was_deduplicated, matched_memory_id: matched },
    }
}

} // verus!
