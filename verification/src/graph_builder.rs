//! Building one page of the exported graph.
use std::collections::{HashMap, HashSet};

use vstd::prelude::*;

use crate::bytes::{be_round_trip, be_value, be_value_round_trip, pow256_values};
use crate::events::{memory_id_bytes, EdgeKindRef, NodeRef};
use crate::graph_fetch::{
    builtin_edge_label, edge_ends, edge_name, encode_cursor, graph_cursor, is_key_of, key_in_scope,
    memory_edge_byte, memory_edge_endpoints, memory_edge_kind, snipped, snippet, StmtKey, EDGE_FACT,
    EDGE_HAS_STATEMENT, EDGE_MENTIONS, EDGE_RELATION, NODE_ENTITY, NODE_MEMORY, NODE_STATEMENT,
};
use crate::labels::{render_value, value_label};
use crate::membership::at_most;
use crate::recall_trace::id_number;
use crate::scope::RowScope;
use crate::statement::{StatementObject, SubjectRef};
use crate::text::{join3, same_text};

verus! {

/// Most relation edges, and most mention edges, walked from one entity. Every
/// page that reaches the entity walks the same first ones, so what lies past
/// them is shown from the other end or not at all.
pub const MAX_EDGES_PER_ENTITY: usize = 512;

/// Most memory edges walked from one memory. Every page that reaches the memory
/// walks the same first ones, so what lies past them is shown from the other
/// end or not at all.
pub const MAX_EDGES_PER_MEMORY: usize = 512;

#[derive(Debug)]
pub struct GraphNode {
    pub id: [u8; 16],
    pub kind: u8,
    pub label: String,
    pub type_qname: String,
}

#[derive(Debug)]
pub struct GraphEdge {
    pub from_id: [u8; 16],
    pub to_id: [u8; 16],
    pub kind: u8,
    pub label: String,
}

/// A node as plain values: its id as a number, its texts as characters.
pub struct PageNode {
    pub id: u128,
    pub kind: u8,
    pub label: Seq<char>,
    pub type_qname: Seq<char>,
}

/// An edge as plain values.
pub struct PageEdge {
    pub from_id: u128,
    pub to_id: u128,
    pub kind: u8,
    pub label: Seq<char>,
}

impl View for GraphNode {
    type V = PageNode;

    open spec fn view(&self) -> PageNode {
        PageNode {
            id: number(self.id),
            kind: self.kind,
            label: self.label@,
            type_qname: self.type_qname@,
        }
    }
}

impl View for GraphEdge {
    type V = PageEdge;

    open spec fn view(&self) -> PageEdge {
        PageEdge {
            from_id: number(self.from_id),
            to_id: number(self.to_id),
            kind: self.kind,
            label: self.label@,
        }
    }
}

/// The number of an id.
pub open spec fn number(id: [u8; 16]) -> u128 {
    be_value(id@) as u128
}

/// Ids are told by their numbers.
pub proof fn numbers_tell_ids(a: [u8; 16], b: [u8; 16])
    ensures
        number(a) == be_value(a@),
        number(a) == number(b) <==> a == b,
{
    pow256_values();
    be_value_round_trip(a@);
    be_value_round_trip(b@);
    if number(a) == number(b) {
        assert(a@ == b@);
        assert(a =~= b);
    }
}

// Sets of edges.

/// The identity of an edge: its ends, its kind and its label. Two relations
/// of different types between the same entities are two edges.
pub type EdgeKey = (u128, u128, u8, Seq<char>);

/// What an edge set keeps of an edge besides its first end.
type EdgeTail = (u128, u8, String);

/// Whether a list has the tail of an edge.
spec fn has_tail(list: Seq<EdgeTail>, e: EdgeKey) -> bool {
    exists|i: int| 0 <= i < list.len() && is_tail(#[trigger] list[i], e)
}

/// Whether a tail is that of an edge.
spec fn is_tail(t: EdgeTail, e: EdgeKey) -> bool {
    t.0 == e.1 && t.1 == e.2 && t.2@ == e.3
}

/// A set of edges, kept by their first end.
#[derive(Debug)]
pub struct EdgeSet {
    by_from: HashMap<u128, Vec<EdgeTail>>,
}

impl EdgeSet {
    /// Whether an edge is in the set.
    pub closed spec fn holds(self, e: EdgeKey) -> bool {
        self.by_from@.contains_key(e.0) && has_tail(self.by_from@[e.0]@, e)
    }

    /// An empty set.
    pub fn new() -> (r: EdgeSet)
        ensures
            forall|e: EdgeKey| !r.holds(e),
    {
        broadcast use vstd::std_specs::hash::group_hash_axioms;

        EdgeSet { by_from: HashMap::new() }
    }

    /// Adds an edge, and tells whether it is new.
    pub fn insert(&mut self, from: u128, to: u128, kind: u8, label: &str) -> (r: bool)
        ensures
            r == !old(self).holds((from, to, kind, label@)),
            forall|e: EdgeKey|
                final(self).holds(e) <==> old(self).holds(e) || e == (from, to, kind, label@),
    {
        broadcast use vstd::std_specs::hash::group_hash_axioms;

        let ghost key: EdgeKey = (from, to, kind, label@);
        let mut list: Vec<EdgeTail> = match self.by_from.remove(&from) {
            Some(l) => l,
            None => Vec::new(),
        };
        let ghost was = list@;
        let mut found: bool = false;
        for i in 0..list.len()
            invariant
                key == (from, to, kind, label@),
                found == exists|j: int| 0 <= j < i && is_tail(#[trigger] list@[j], key),
        {
            if list[i].0 == to && list[i].1 == kind && same_text(&list[i].2, label) {
                assert(is_tail(list@[i as int], key));
                found = true;
            }
        }
        if !found {
            list.push((to, kind, label.to_owned()));
        }
        let ghost now = list@;
        self.by_from.insert(from, list);
        proof {
            assert forall|e: EdgeKey| self.holds(e) <==> old(self).holds(e) || e == key by {
                if e.0 == from {
                    if has_tail(was, e) {
                        let j = choose|j: int| 0 <= j < was.len() && is_tail(#[trigger] was[j], e);
                        assert(is_tail(now[j], e));
                    }
                    if has_tail(now, e) {
                        let j = choose|j: int| 0 <= j < now.len() && is_tail(#[trigger] now[j], e);
                        if j < was.len() {
                            assert(is_tail(was[j], e));
                        }
                    }
                    if e == key && !found {
                        assert(is_tail(now[was.len() as int], e));
                    }
                }
            }
        }
        !found
    }
}

// The page.

/// A page as plain values: its nodes and edges, and the entities and memories
/// that it is walked on from.
pub struct Page {
    pub nodes: Seq<PageNode>,
    pub edges: Seq<PageEdge>,
    pub entities: Seq<u128>,
    pub memories: Seq<u128>,
}

/// Whether a page has a node.
pub open spec fn has_id(nodes: Seq<PageNode>, id: u128) -> bool {
    exists|i: int| 0 <= i < nodes.len() && (#[trigger] nodes[i]).id == id
}

/// Whether a page has an edge.
pub open spec fn has_edge(edges: Seq<PageEdge>, key: EdgeKey) -> bool {
    exists|i: int| 0 <= i < edges.len() && edge_key(#[trigger] edges[i]) == key
}

/// The identity of an edge.
pub open spec fn edge_key(e: PageEdge) -> EdgeKey {
    (e.from_id, e.to_id, e.kind, e.label)
}

/// A page with a node; of one id the first stays.
pub open spec fn with_node(p: Page, n: PageNode) -> Page {
    if has_id(p.nodes, n.id) {
        p
    } else {
        Page { nodes: p.nodes.push(n), ..p }
    }
}

/// A page with an edge; of one identity the first stays.
pub open spec fn with_edge(p: Page, e: PageEdge) -> Page {
    if has_edge(p.edges, edge_key(e)) {
        p
    } else {
        Page { edges: p.edges.push(e), ..p }
    }
}

/// An entity's row, as far as its node shows it.
#[derive(Debug)]
pub struct EntityLabel {
    pub name: String,
    pub type_qname: String,
}

/// A page with an entity: a seed of the walk, and a node where its row is
/// there.
pub open spec fn with_entity(p: Page, id: u128, row: Option<EntityLabel>) -> Page {
    let seeded = if p.entities.contains(id) {
        p
    } else {
        Page { entities: p.entities.push(id), ..p }
    };
    match row {
        Some(e) => with_node(
            seeded,
            PageNode { id, kind: NODE_ENTITY, label: e.name@, type_qname: e.type_qname@ },
        ),
        None => seeded,
    }
}

/// The label of a memory: the head of its text, or nothing.
pub open spec fn memory_label(text: Option<String>) -> Seq<char> {
    match text {
        Some(t) => snipped(t@),
        None => Seq::empty(),
    }
}

/// A page with a memory's node.
pub open spec fn with_memory(p: Page, id: u128, text: Option<String>) -> Page {
    with_node(
        p,
        PageNode {
            id,
            kind: NODE_MEMORY,
            label: memory_label(text),
            type_qname: Seq::empty(),
        },
    )
}

/// The nodes of a list, as plain values.
pub open spec fn nodes_view(v: Seq<GraphNode>) -> Seq<PageNode> {
    v.map_values(|n: GraphNode| n@)
}

/// The edges of a list, as plain values.
pub open spec fn edges_view(v: Seq<GraphEdge>) -> Seq<PageEdge> {
    v.map_values(|e: GraphEdge| e@)
}

/// The numbers of ids.
pub open spec fn numbers(v: Seq<[u8; 16]>) -> Seq<u128> {
    v.map_values(|id: [u8; 16]| number(id))
}

/// Gathers the nodes and edges of a page, each once.
#[derive(Debug)]
pub struct GraphBuilder {
    include_statements: bool,
    include_memories: bool,
    include_memory_edges: bool,
    nodes: Vec<GraphNode>,
    edges: Vec<GraphEdge>,
    seen_nodes: HashSet<u128>,
    seen_edges: EdgeSet,
    entities_this_page: Vec<[u8; 16]>,
    seen_entity_seeds: HashSet<u128>,
    memories_this_page: Vec<u128>,
    seen_memory_seeds: HashSet<u128>,
}

impl GraphBuilder {
    /// The page so far.
    pub closed spec fn page(self) -> Page {
        Page {
            nodes: nodes_view(self.nodes@),
            edges: edges_view(self.edges@),
            entities: numbers(self.entities_this_page@),
            memories: self.memories_this_page@,
        }
    }

    /// The layers to gather: statements, memories, memory edges.
    pub closed spec fn layers(self) -> (bool, bool, bool) {
        (self.include_statements, self.include_memories, self.include_memory_edges)
    }

    /// What was seen is what was gathered.
    pub closed spec fn wf(self) -> bool {
        &&& forall|id: u128| self.seen_nodes@.contains(id) <==> has_id(self.page().nodes, id)
        &&& forall|k: EdgeKey| self.seen_edges.holds(k) <==> has_edge(self.page().edges, k)
        &&& forall|id: u128|
            self.seen_entity_seeds@.contains(id) <==> self.page().entities.contains(id)
        &&& forall|id: u128|
            self.seen_memory_seeds@.contains(id) <==> self.page().memories.contains(id)
    }

    pub fn new(include_statements: bool, include_memories: bool, include_memory_edges: bool) -> (r:
        Self)
        ensures
            r.wf(),
            r.layers() == (include_statements, include_memories, include_memory_edges),
            r.page() == (Page {
                nodes: Seq::empty(),
                edges: Seq::empty(),
                entities: Seq::empty(),
                memories: Seq::empty(),
            }),
    {
        broadcast use vstd::std_specs::hash::group_hash_axioms;

        let r = GraphBuilder {
            include_statements,
            include_memories,
            include_memory_edges,
            nodes: Vec::new(),
            edges: Vec::new(),
            seen_nodes: HashSet::new(),
            seen_edges: EdgeSet::new(),
            entities_this_page: Vec::new(),
            seen_entity_seeds: HashSet::new(),
            memories_this_page: Vec::new(),
            seen_memory_seeds: HashSet::new(),
        };
        assert(r.page().nodes =~= Seq::empty());
        assert(r.page().edges =~= Seq::empty());
        assert(r.page().entities =~= Seq::empty());
        assert(r.page().memories =~= Seq::empty());
        r
    }

    /// Adds a node, unless its id is there.
    pub fn emit_node(&mut self, node: GraphNode)
        requires
            old(self).wf(),
        ensures
            final(self).wf(),
            final(self).layers() == old(self).layers(),
            final(self).page() == with_node(old(self).page(), node@),
    {
        broadcast use vstd::std_specs::hash::group_hash_axioms;

        let n: u128 = id_number(&node.id);
        proof {
            numbers_tell_ids(node.id, node.id);
        }
        let ghost before = self.nodes@;
        if self.seen_nodes.insert(n) {
            self.nodes.push(node);
            proof {
                let a = nodes_view(before);
                let b = nodes_view(self.nodes@);
                assert(b =~= a.push(node@));
                pushing_adds_id(a, node@);
            }
        }
        assert(self.page().edges == old(self).page().edges);
    }

    /// Adds an edge, unless one of its identity is there.
    pub fn emit_edge(&mut self, from: [u8; 16], to: [u8; 16], kind: u8, label: String)
        requires
            old(self).wf(),
        ensures
            final(self).wf(),
            final(self).layers() == old(self).layers(),
            final(self).page() == with_edge(
                old(self).page(),
                PageEdge { from_id: number(from), to_id: number(to), kind, label: label@ },
            ),
    {
        let f: u128 = id_number(&from);
        let t: u128 = id_number(&to);
        proof {
            numbers_tell_ids(from, to);
            numbers_tell_ids(to, from);
        }
        let ghost before = self.edges@;
        if self.seen_edges.insert(f, t, kind, &label) {
            let edge = GraphEdge { from_id: from, to_id: to, kind, label };
            self.edges.push(edge);
            proof {
                let a = edges_view(before);
                let b = edges_view(self.edges@);
                assert(b =~= a.push(edge@));
                pushing_adds_edge(a, edge@);
            }
        }
        assert(self.page().nodes == old(self).page().nodes);
    }

    /// Adds an entity: a seed of the walk, and a node where its row is there.
    pub fn emit_entity(&mut self, id: [u8; 16], row: &Option<EntityLabel>)
        requires
            old(self).wf(),
        ensures
            final(self).wf(),
            final(self).layers() == old(self).layers(),
            final(self).page() == with_entity(old(self).page(), number(id), *row),
    {
        broadcast use vstd::std_specs::hash::group_hash_axioms;

        let n: u128 = id_number(&id);
        proof {
            numbers_tell_ids(id, id);
        }
        let ghost before = self.entities_this_page@;
        if self.seen_entity_seeds.insert(n) {
            self.entities_this_page.push(id);
            proof {
                let a = numbers(before);
                let b = numbers(self.entities_this_page@);
                assert(b =~= a.push(n));
                pushing_adds_item(a, n);
            }
        }
        assert(self.page().nodes == old(self).page().nodes);
        match row {
            Some(e) => {
                let node = GraphNode {
                    id,
                    kind: NODE_ENTITY,
                    label: e.name.clone(),
                    type_qname: e.type_qname.clone(),
                };
                self.emit_node(node);
            },
            None => {},
        }
    }

    /// Adds a memory's node.
    pub fn emit_memory_node(&mut self, id: u128, text: &Option<String>)
        requires
            old(self).wf(),
        ensures
            final(self).wf(),
            final(self).layers() == old(self).layers(),
            final(self).page() == with_memory(old(self).page(), id, *text),
    {
        let bytes = memory_id_bytes(id);
        proof {
            pow256_values();
            be_round_trip(id as nat, 16);
        }
        let label = match text {
            Some(t) => snippet(t),
            None => {
                let none = String::new();
                assert(none@ =~= Seq::empty());
                none
            },
        };
        let type_qname = String::new();
        assert(type_qname@ =~= Seq::empty());
        self.emit_node(GraphNode { id: bytes, kind: NODE_MEMORY, label, type_qname });
    }
}

proof fn pushing_adds_id(a: Seq<PageNode>, n: PageNode)
    ensures
        forall|id: u128| has_id(a.push(n), id) <==> has_id(a, id) || id == n.id,
{
    let b = a.push(n);
    assert forall|id: u128| has_id(b, id) <==> has_id(a, id) || id == n.id by {
        if has_id(a, id) {
            let i = choose|i: int| 0 <= i < a.len() && (#[trigger] a[i]).id == id;
            assert(b[i].id == id);
        }
        if id == n.id {
            assert(b[a.len() as int].id == id);
        }
        if has_id(b, id) && id != n.id {
            let i = choose|i: int| 0 <= i < b.len() && (#[trigger] b[i]).id == id;
            assert(a[i].id == id);
        }
    }
}

proof fn pushing_adds_edge(a: Seq<PageEdge>, e: PageEdge)
    ensures
        forall|k: EdgeKey| has_edge(a.push(e), k) <==> has_edge(a, k) || k == edge_key(e),
{
    let b = a.push(e);
    assert forall|k: EdgeKey| has_edge(b, k) <==> has_edge(a, k) || k == edge_key(e) by {
        if has_edge(a, k) {
            let i = choose|i: int| 0 <= i < a.len() && edge_key(#[trigger] a[i]) == k;
            assert(edge_key(b[i]) == k);
        }
        if k == edge_key(e) {
            assert(edge_key(b[a.len() as int]) == k);
        }
        if has_edge(b, k) && k != edge_key(e) {
            let i = choose|i: int| 0 <= i < b.len() && edge_key(#[trigger] b[i]) == k;
            assert(edge_key(a[i]) == k);
        }
    }
}

proof fn pushing_adds_item<T>(a: Seq<T>, x: T)
    ensures
        forall|y: T| a.push(x).contains(y) <==> a.contains(y) || y == x,
{
    let b = a.push(x);
    assert forall|y: T| b.contains(y) <==> a.contains(y) || y == x by {
        if a.contains(y) {
            let i = choose|i: int| 0 <= i < a.len() && a[i] == y;
            assert(b[i] == y);
        }
        assert(b[a.len() as int] == x);
        if b.contains(y) && y != x {
            let i = choose|i: int| 0 <= i < b.len() && b[i] == y;
            assert(a[i] == y);
        }
    }
}

// The statement spine.

/// A statement of the spine, with the rows of the entities it names.
/// `predicate` is its qualified name, empty where it is unknown.
#[derive(Debug)]
pub struct SpineStatement {
    pub id: [u8; 16],
    pub tombstoned: bool,
    pub subject: SubjectRef,
    pub subject_row: Option<EntityLabel>,
    pub predicate: String,
    pub object: StatementObject,
    pub object_row: Option<EntityLabel>,
}

/// An entry of the statement index, with its statement where it is there.
#[derive(Debug)]
pub struct SpineRow {
    pub key: StmtKey,
    pub statement: Option<SpineStatement>,
}

/// A page with a statement: its subject, and its object as an entity or, where
/// statements are asked for, as a node of its own. References to memories and
/// statements are not shown.
pub open spec fn with_statement(p: Page, s: SpineStatement, include_statements: bool) -> Page {
    match s.subject {
        SubjectRef::Entity(subject) => {
            let q = with_entity(p, number(subject), s.subject_row);
            match s.object {
                StatementObject::EntityRef(object) => with_edge(
                    with_entity(q, number(object), s.object_row),
                    PageEdge {
                        from_id: number(subject),
                        to_id: number(object),
                        kind: EDGE_FACT,
                        label: s.predicate@,
                    },
                ),
                StatementObject::Value(v) => if include_statements {
                    with_edge(
                        with_node(
                            q,
                            PageNode {
                                id: number(s.id),
                                kind: NODE_STATEMENT,
                                label: s.predicate@ + ": "@ + value_label(v),
                                type_qname: Seq::empty(),
                            },
                        ),
                        PageEdge {
                            from_id: number(subject),
                            to_id: number(s.id),
                            kind: EDGE_HAS_STATEMENT,
                            label: s.predicate@,
                        },
                    )
                } else {
                    q
                },
                _ => q,
            }
        },
        _ => p,
    }
}

/// What of the spine is walked: the entries of the caller's scope, and the
/// tombstoned ones among them only where they are asked for.
#[derive(Clone, Copy, Debug)]
pub struct SpineFilter {
    pub caller: RowScope,
    pub include_tombstoned: bool,
}

/// Whether an entry of the spine counts: a current statement of the caller's
/// scope that is there and, unless they are asked for, not tombstoned.
pub open spec fn counts_on_spine(row: SpineRow, which: SpineFilter) -> bool {
    &&& key_in_scope(row.key, which.caller)
    &&& row.key.5 != 0
    &&& row.statement matches Some(s) && (which.include_tombstoned || !s.tombstoned)
}

/// How far the spine was walked.
#[derive(Clone, Copy, Debug)]
pub struct SpineProgress {
    pub consumed: u32,
    pub last_key: Option<StmtKey>,
    pub has_more: bool,
}

/// One step along the spine: an entry of another scope is not there at all; a
/// full page only notes that there is more; an entry that does not count is
/// passed over.
pub open spec fn spine_step(
    st: (Page, SpineProgress),
    row: SpineRow,
    limit: u32,
    include_statements: bool,
    which: SpineFilter,
) -> (Page, SpineProgress) {
    if st.1.has_more || !key_in_scope(row.key, which.caller) {
        st
    } else if st.1.consumed == limit {
        (st.0, SpineProgress { has_more: true, ..st.1 })
    } else if !counts_on_spine(row, which) {
        st
    } else {
        (
            with_statement(st.0, row.statement->0, include_statements),
            SpineProgress {
                consumed: (st.1.consumed + 1) as u32,
                last_key: Some(row.key),
                has_more: false,
            },
        )
    }
}

/// The spine walked over rows.
pub open spec fn spine(
    st: (Page, SpineProgress),
    rows: Seq<SpineRow>,
    limit: u32,
    include_statements: bool,
    which: SpineFilter,
) -> (Page, SpineProgress)
    decreases rows.len(),
{
    if rows.len() == 0 {
        st
    } else {
        spine_step(
            spine(st, rows.drop_last(), limit, include_statements, which),
            rows.last(),
            limit,
            include_statements,
            which,
        )
    }
}

impl GraphBuilder {
    /// Adds a statement of the spine.
    pub fn emit_statement(&mut self, s: &SpineStatement)
        requires
            old(self).wf(),
        ensures
            final(self).wf(),
            final(self).layers() == old(self).layers(),
            final(self).page() == with_statement(old(self).page(), *s, old(self).layers().0),
    {
        let subject = match s.subject {
            SubjectRef::Entity(id) => id,
            _ => {
                return;
            },
        };
        self.emit_entity(subject, &s.subject_row);
        match &s.object {
            StatementObject::EntityRef(object) => {
                self.emit_entity(*object, &s.object_row);
                self.emit_edge(subject, *object, EDGE_FACT, s.predicate.clone());
            },
            StatementObject::Value(value) => {
                if self.include_statements {
                    let shown = render_value(value);
                    let label = join3(&s.predicate, ": ", &shown);
                    let type_qname = String::new();
                    assert(type_qname@ =~= Seq::empty());
                    self.emit_node(
                        GraphNode { id: s.id, kind: NODE_STATEMENT, label, type_qname },
                    );
                    self.emit_edge(subject, s.id, EDGE_HAS_STATEMENT, s.predicate.clone());
                }
            },
            StatementObject::MemoryRef(_) => {},
            StatementObject::StatementRef(_) => {},
        }
    }

    /// Walks on along the spine, until the page is full and there is more.
    pub fn walk_spine(
        &mut self,
        progress: SpineProgress,
        rows: &Vec<SpineRow>,
        limit: u32,
        which: SpineFilter,
    ) -> (r: SpineProgress)
        requires
            old(self).wf(),
            progress.consumed <= limit,
        ensures
            final(self).wf(),
            final(self).layers() == old(self).layers(),
            (final(self).page(), r) == spine(
                (old(self).page(), progress),
                rows@,
                limit,
                old(self).layers().0,
                which,
            ),
            r.consumed <= limit,
    {
        let ghost start = (self.page(), progress);
        let ghost shown = self.layers().0;
        let mut st = progress;
        for i in 0..rows.len()
            invariant
                self.wf(),
                self.layers() == old(self).layers(),
                shown == self.layers().0,
                st.consumed <= limit,
                (self.page(), st) == spine(
                    start,
                    rows@.take(i as int),
                    limit,
                    shown,
                    which,
                ),
        {
            assert(rows@.take(i + 1).drop_last() =~= rows@.take(i as int));
            let row = &rows[i];
            if !st.has_more && is_key_of(&row.key, &which.caller) {
                if st.consumed == limit {
                    st = SpineProgress {
                        consumed: st.consumed,
                        last_key: st.last_key,
                        has_more: true,
                    };
                } else {
                    match &row.statement {
                        Some(s) => {
                            if row.key.5 != 0 && (which.include_tombstoned || !s.tombstoned) {
                                st = SpineProgress {
                                    consumed: st.consumed + 1,
                                    last_key: Some(row.key),
                                    has_more: false,
                                };
                                self.emit_statement(s);
                            }
                        },
                        None => {},
                    }
                }
            }
        }
        assert(rows@.take(rows@.len() as int) =~= rows@);
        st
    }
}

// Relations and mentions.

/// An edge at an entity. `relation` is the qualified name of its relation
/// type, where it is known; `other_row` the row of the far entity.
#[derive(Debug)]
pub struct RelationEdge {
    pub kind: EdgeKindRef,
    pub other: NodeRef,
    pub relation: Option<String>,
    pub other_row: Option<EntityLabel>,
}

/// A page with a relation of an entity, and how many were walked: only known
/// relation types between entities count, and only so many of them.
pub open spec fn relation_step(
    st: (Page, nat),
    entity: u128,
    row: RelationEdge,
    outgoing: bool,
) -> (Page, nat) {
    match (row.kind, row.other, row.relation) {
        (EdgeKindRef::Typed(_), NodeRef::Entity(other), Some(name)) if st.1
            < MAX_EDGES_PER_ENTITY => (
            with_edge(
                with_entity(st.0, number(other), row.other_row),
                PageEdge {
                    from_id: if outgoing {
                        entity
                    } else {
                        number(other)
                    },
                    to_id: if outgoing {
                        number(other)
                    } else {
                        entity
                    },
                    kind: EDGE_RELATION,
                    label: name@,
                },
            ),
            st.1 + 1,
        ),
        _ => st,
    }
}

/// A page with relations of an entity in one direction.
pub open spec fn relations_walked(
    st: (Page, nat),
    entity: u128,
    rows: Seq<RelationEdge>,
    outgoing: bool,
) -> (Page, nat)
    decreases rows.len(),
{
    if rows.len() == 0 {
        st
    } else {
        relation_step(
            relations_walked(st, entity, rows.drop_last(), outgoing),
            entity,
            rows.last(),
            outgoing,
        )
    }
}

/// A page with the relations of an entity, outgoing ones first.
pub open spec fn with_relations(
    p: Page,
    entity: u128,
    outgoing: Seq<RelationEdge>,
    incoming: Seq<RelationEdge>,
) -> Page {
    relations_walked(
        relations_walked((p, 0), entity, outgoing, true),
        entity,
        incoming,
        false,
    ).0
}

/// A mention of an entity: what mentions it, and its text where it is a memory
/// with one.
#[derive(Debug)]
pub struct MentionEdge {
    pub from: NodeRef,
    pub text: Option<String>,
}

/// A page with a mention: the memory's node, a seed of the memory walk, and
/// the edge.
pub open spec fn with_mention(p: Page, entity: u128, row: MentionEdge) -> Page {
    match row.from {
        NodeRef::Memory(m) => {
            let q = with_memory(p, m, row.text);
            let seeded = if q.memories.contains(m) {
                q
            } else {
                Page { memories: q.memories.push(m), ..q }
            };
            with_edge(
                seeded,
                PageEdge { from_id: m, to_id: entity, kind: EDGE_MENTIONS, label: Seq::empty() },
            )
        },
        NodeRef::Entity(_) => p,
    }
}

/// A page with mentions of an entity.
pub open spec fn mentions_walked(p: Page, entity: u128, rows: Seq<MentionEdge>) -> Page
    decreases rows.len(),
{
    if rows.len() == 0 {
        p
    } else {
        with_mention(mentions_walked(p, entity, rows.drop_last()), entity, rows.last())
    }
}

/// A memory edge at a memory, and the text of the far memory.
#[derive(Debug)]
pub struct MemoryEdge {
    pub kind: EdgeKindRef,
    pub other: NodeRef,
    pub text: Option<String>,
}

/// A page with an edge between memories, and how many were walked: the far
/// memory gets a node, so that no edge dangles, but is not walked on from.
pub open spec fn memory_edge_step(
    st: (Page, nat),
    anchor: u128,
    row: MemoryEdge,
    outgoing: bool,
) -> (Page, nat) {
    match (row.kind, row.other) {
        (EdgeKindRef::Builtin(kind), NodeRef::Memory(other)) if st.1 < MAX_EDGES_PER_MEMORY => {
            let ends = edge_ends(kind, anchor, other, outgoing);
            (
                with_edge(
                    with_memory(st.0, other, row.text),
                    PageEdge {
                        from_id: ends.0,
                        to_id: ends.1,
                        kind: memory_edge_kind(kind),
                        label: edge_name(kind),
                    },
                ),
                st.1 + 1,
            )
        },
        _ => st,
    }
}

/// A page with memory edges in one direction.
pub open spec fn memory_edges_walked(
    st: (Page, nat),
    anchor: u128,
    rows: Seq<MemoryEdge>,
    outgoing: bool,
) -> (Page, nat)
    decreases rows.len(),
{
    if rows.len() == 0 {
        st
    } else {
        memory_edge_step(
            memory_edges_walked(st, anchor, rows.drop_last(), outgoing),
            anchor,
            rows.last(),
            outgoing,
        )
    }
}

/// A page with the memory edges of a memory, outgoing ones first.
pub open spec fn with_memory_edges(
    p: Page,
    anchor: u128,
    outgoing: Seq<MemoryEdge>,
    incoming: Seq<MemoryEdge>,
) -> Page {
    memory_edges_walked(
        memory_edges_walked((p, 0), anchor, outgoing, true),
        anchor,
        incoming,
        false,
    ).0
}

impl GraphBuilder {
    fn walk_relations(
        &mut self,
        entity: [u8; 16],
        rows: &Vec<RelationEdge>,
        outgoing: bool,
        start: usize,
    ) -> (r: usize)
        requires
            old(self).wf(),
            start <= MAX_EDGES_PER_ENTITY,
        ensures
            final(self).wf(),
            final(self).layers() == old(self).layers(),
            r <= MAX_EDGES_PER_ENTITY,
            (final(self).page(), r as nat) == relations_walked(
                (old(self).page(), start as nat),
                number(entity),
                rows@,
                outgoing,
            ),
    {
        let ghost begin = (self.page(), start as nat);
        let mut walked: usize = start;
        for i in 0..rows.len()
            invariant
                self.wf(),
                self.layers() == old(self).layers(),
                walked <= MAX_EDGES_PER_ENTITY,
                (self.page(), walked as nat) == relations_walked(
                    begin,
                    number(entity),
                    rows@.take(i as int),
                    outgoing,
                ),
        {
            assert(rows@.take(i + 1).drop_last() =~= rows@.take(i as int));
            let row = &rows[i];
            if walked < MAX_EDGES_PER_ENTITY {
                match (row.kind, row.other, &row.relation) {
                    (EdgeKindRef::Typed(_), NodeRef::Entity(other), Some(name)) => {
                        walked = walked + 1;
                        self.emit_entity(other, &row.other_row);
                        if outgoing {
                            self.emit_edge(entity, other, EDGE_RELATION, name.clone());
                        } else {
                            self.emit_edge(other, entity, EDGE_RELATION, name.clone());
                        }
                    },
                    _ => {},
                }
            }
        }
        assert(rows@.take(rows@.len() as int) =~= rows@);
        walked
    }

    /// Adds the relations of an entity, in both directions.
    pub fn emit_relations(
        &mut self,
        entity: [u8; 16],
        outgoing: &Vec<RelationEdge>,
        incoming: &Vec<RelationEdge>,
    )
        requires
            old(self).wf(),
        ensures
            final(self).wf(),
            final(self).layers() == old(self).layers(),
            final(self).page() == with_relations(
                old(self).page(),
                number(entity),
                outgoing@,
                incoming@,
            ),
    {
        let walked: usize = self.walk_relations(entity, outgoing, true, 0);
        self.walk_relations(entity, incoming, false, walked);
    }

    /// Adds the mentions of an entity, and the memories that mention it.
    pub fn emit_mentions(&mut self, entity: [u8; 16], rows: &Vec<MentionEdge>)
        requires
            old(self).wf(),
        ensures
            final(self).wf(),
            final(self).layers() == old(self).layers(),
            final(self).page() == mentions_walked(
                old(self).page(),
                number(entity),
                at_most(rows@, MAX_EDGES_PER_ENTITY as nat),
            ),
    {
        broadcast use vstd::std_specs::hash::group_hash_axioms;

        let ghost start = self.page();
        let ghost first = at_most(rows@, MAX_EDGES_PER_ENTITY as nat);
        let n: usize = if rows.len() > MAX_EDGES_PER_ENTITY {
            MAX_EDGES_PER_ENTITY
        } else {
            rows.len()
        };
        for i in 0..n
            invariant
                n <= rows@.len(),
                first == at_most(rows@, MAX_EDGES_PER_ENTITY as nat),
                first.len() == n,
                self.wf(),
                self.layers() == old(self).layers(),
                self.page() == mentions_walked(start, number(entity), first.take(i as int)),
        {
            assert(first.take(i + 1).drop_last() =~= first.take(i as int));
            let row = &rows[i];
            match row.from {
                NodeRef::Memory(m) => {
                    self.emit_memory_node(m, &row.text);
                    let ghost before = self.memories_this_page@;
                    let ghost at = self.page();
                    if self.seen_memory_seeds.insert(m) {
                        self.memories_this_page.push(m);
                        proof {
                            pushing_adds_item(before, m);
                        }
                    }
                    assert(self.page().nodes == at.nodes);
                    assert(self.page().edges == at.edges);
                    let bytes = memory_id_bytes(m);
                    proof {
                        pow256_values();
                        be_round_trip(m as nat, 16);
                    }
                    let none = String::new();
                    assert(none@ =~= Seq::empty());
                    self.emit_edge(bytes, entity, EDGE_MENTIONS, none);
                },
                NodeRef::Entity(_) => {},
            }
        }
        assert(first.take(first.len() as int) =~= first);
    }

    fn walk_memory_edges(
        &mut self,
        anchor: u128,
        rows: &Vec<MemoryEdge>,
        outgoing: bool,
        start: usize,
    ) -> (r: usize)
        requires
            old(self).wf(),
            start <= MAX_EDGES_PER_MEMORY,
        ensures
            final(self).wf(),
            final(self).layers() == old(self).layers(),
            r <= MAX_EDGES_PER_MEMORY,
            (final(self).page(), r as nat) == memory_edges_walked(
                (old(self).page(), start as nat),
                anchor,
                rows@,
                outgoing,
            ),
    {
        let ghost begin = (self.page(), start as nat);
        let mut walked: usize = start;
        for i in 0..rows.len()
            invariant
                self.wf(),
                self.layers() == old(self).layers(),
                walked <= MAX_EDGES_PER_MEMORY,
                (self.page(), walked as nat) == memory_edges_walked(
                    begin,
                    anchor,
                    rows@.take(i as int),
                    outgoing,
                ),
        {
            assert(rows@.take(i + 1).drop_last() =~= rows@.take(i as int));
            let row = &rows[i];
            if walked < MAX_EDGES_PER_MEMORY {
                match (row.kind, row.other) {
                    (EdgeKindRef::Builtin(kind), NodeRef::Memory(other)) => {
                        let (from, to) = memory_edge_endpoints(kind, anchor, other, outgoing);
                        walked = walked + 1;
                        self.emit_memory_node(other, &row.text);
                        let from_bytes = memory_id_bytes(from);
                        let to_bytes = memory_id_bytes(to);
                        proof {
                            pow256_values();
                            be_round_trip(from as nat, 16);
                            be_round_trip(to as nat, 16);
                        }
                        let label = builtin_edge_label(kind).to_owned();
                        self.emit_edge(from_bytes, to_bytes, memory_edge_byte(kind), label);
                    },
                    _ => {},
                }
            }
        }
        assert(rows@.take(rows@.len() as int) =~= rows@);
        walked
    }

    /// Adds the memory edges of a memory, in both directions.
    pub fn emit_memory_edges(
        &mut self,
        anchor: u128,
        outgoing: &Vec<MemoryEdge>,
        incoming: &Vec<MemoryEdge>,
    )
        requires
            old(self).wf(),
        ensures
            final(self).wf(),
            final(self).layers() == old(self).layers(),
            final(self).page() == with_memory_edges(
                old(self).page(),
                anchor,
                outgoing@,
                incoming@,
            ),
    {
        let walked: usize = self.walk_memory_edges(anchor, outgoing, true, 0);
        self.walk_memory_edges(anchor, incoming, false, walked);
    }

    /// The entities to walk on from.
    pub fn entity_seeds(&self) -> (r: Vec<[u8; 16]>)
        ensures
            numbers(r@) == self.page().entities,
    {
        crate::bytes::copy_list(&self.entities_this_page)
    }

    /// The memories to walk on from.
    pub fn memory_seeds(&self) -> (r: Vec<u128>)
        ensures
            r@ == self.page().memories,
    {
        crate::bytes::copy_list(&self.memories_this_page)
    }

    /// The finished page, with a cursor after its last statement where there
    /// is more.
    pub fn finish(self, flags: u8, progress: SpineProgress) -> (r: GraphFetchResponseFrame)
        ensures
            shows_page(r, self.page(), flags, progress),
    {
        let next_cursor = match progress.last_key {
            Some(k) if progress.has_more => encode_cursor(flags, &k),
            _ => Vec::new(),
        };
        GraphFetchResponseFrame {
            nodes: self.nodes,
            edges: self.edges,
            next_cursor,
            is_final: true,
        }
    }
}

/// Whether a frame shows a page, with a cursor where there is more.
pub open spec fn shows_page(
    r: GraphFetchResponseFrame,
    page: Page,
    flags: u8,
    progress: SpineProgress,
) -> bool {
    &&& nodes_view(r.nodes@) == page.nodes
    &&& edges_view(r.edges@) == page.edges
    &&& r.is_final
    &&& r.next_cursor@ == (if progress.has_more && progress.last_key is Some {
        graph_cursor(flags, progress.last_key->0)
    } else {
        Seq::<u8>::empty()
    })
}

#[derive(Debug)]
pub struct GraphFetchResponseFrame {
    pub nodes: Vec<GraphNode>,
    pub edges: Vec<GraphEdge>,
    pub next_cursor: Vec<u8>,
    pub is_final: bool,
}

impl GraphBuilder {
    /// Walks on from an entity: its relations and, where memories are asked
    /// for, its mentions.
    pub fn walk_entity(
        &mut self,
        entity: [u8; 16],
        outgoing: &Vec<RelationEdge>,
        incoming: &Vec<RelationEdge>,
        mentions: &Vec<MentionEdge>,
    )
        requires
            old(self).wf(),
        ensures
            final(self).wf(),
            final(self).layers() == old(self).layers(),
            final(self).page() == entity_walked(
                old(self).page(),
                number(entity),
                outgoing@,
                incoming@,
                mentions@,
                old(self).layers().1,
            ),
    {
        self.emit_relations(entity, outgoing, incoming);
        if self.include_memories {
            self.emit_mentions(entity, mentions);
        }
    }

    /// Walks on from a memory, where memory edges are asked for.
    pub fn walk_memory(
        &mut self,
        anchor: u128,
        outgoing: &Vec<MemoryEdge>,
        incoming: &Vec<MemoryEdge>,
    )
        requires
            old(self).wf(),
        ensures
            final(self).wf(),
            final(self).layers() == old(self).layers(),
            final(self).page() == (if old(self).layers().2 {
                with_memory_edges(old(self).page(), anchor, outgoing@, incoming@)
            } else {
                old(self).page()
            }),
    {
        if self.include_memory_edges {
            self.emit_memory_edges(anchor, outgoing, incoming);
        }
    }
}

/// A page with the relations of an entity and, where memories are asked for,
/// its mentions.
pub open spec fn entity_walked(
    p: Page,
    entity: u128,
    outgoing: Seq<RelationEdge>,
    incoming: Seq<RelationEdge>,
    mentions: Seq<MentionEdge>,
    include_memories: bool,
) -> Page {
    let q = with_relations(p, entity, outgoing, incoming);
    if include_memories {
        mentions_walked(q, entity, at_most(mentions, MAX_EDGES_PER_ENTITY as nat))
    } else {
        q
    }
}

// What holds of every page.

/// Whether every end of an edge that must be a memory has a node.
pub open spec fn ends_present(nodes: Seq<PageNode>, e: PageEdge) -> bool {
    &&& e.kind >= EDGE_MENTIONS ==> has_id(nodes, e.from_id)
    &&& e.kind > EDGE_MENTIONS ==> has_id(nodes, e.to_id)
}

/// A sound page: every node and every edge is there once, no memory end of an
/// edge dangles, and every memory that is walked on from has a node.
pub open spec fn sound(p: Page) -> bool {
    &&& forall|i: int, j: int|
        #![trigger p.nodes[i], p.nodes[j]]
        0 <= i < j < p.nodes.len() ==> p.nodes[i].id != p.nodes[j].id
    &&& forall|i: int, j: int|
        #![trigger p.edges[i], p.edges[j]]
        0 <= i < j < p.edges.len() ==> edge_key(p.edges[i]) != edge_key(p.edges[j])
    &&& forall|i: int| 0 <= i < p.edges.len() ==> ends_present(p.nodes, #[trigger] p.edges[i])
    &&& forall|i: int| 0 <= i < p.memories.len() ==> has_id(p.nodes, #[trigger] p.memories[i])
}

/// Whether one page has the nodes of another.
pub open spec fn keeps_nodes(p: Page, q: Page) -> bool {
    forall|id: u128| has_id(p.nodes, id) ==> has_id(q.nodes, id)
}

proof fn node_keeps_sound(p: Page, n: PageNode)
    requires
        sound(p),
    ensures
        sound(with_node(p, n)),
        keeps_nodes(p, with_node(p, n)),
        has_id(with_node(p, n).nodes, n.id),
{
    let q = with_node(p, n);
    if !has_id(p.nodes, n.id) {
        pushing_adds_id(p.nodes, n);
        assert forall|i: int, j: int|
            #![trigger q.nodes[i], q.nodes[j]]
            0 <= i < j < q.nodes.len() implies q.nodes[i].id != q.nodes[j].id by {
            assert(q.nodes[i] == p.nodes[i]);
            if j < p.nodes.len() {
                assert(q.nodes[j] == p.nodes[j]);
            }
        }
        assert forall|i: int| 0 <= i < q.edges.len() implies ends_present(
            q.nodes,
            #[trigger] q.edges[i],
        ) by {
            assert(ends_present(p.nodes, p.edges[i]));
        }
        assert forall|i: int| 0 <= i < q.memories.len() implies has_id(
            q.nodes,
            #[trigger] q.memories[i],
        ) by {
            assert(has_id(p.nodes, p.memories[i]));
        }
    }
}

proof fn edge_keeps_sound(p: Page, e: PageEdge)
    requires
        sound(p),
        ends_present(p.nodes, e),
    ensures
        sound(with_edge(p, e)),
        keeps_nodes(p, with_edge(p, e)),
{
    let q = with_edge(p, e);
    if !has_edge(p.edges, edge_key(e)) {
        assert forall|i: int, j: int|
            #![trigger q.edges[i], q.edges[j]]
            0 <= i < j < q.edges.len() implies edge_key(q.edges[i]) != edge_key(q.edges[j]) by {
            assert(q.edges[i] == p.edges[i]);
            if j < p.edges.len() {
                assert(q.edges[j] == p.edges[j]);
            }
        }
        assert forall|i: int| 0 <= i < q.edges.len() implies ends_present(
            q.nodes,
            #[trigger] q.edges[i],
        ) by {
            if i < p.edges.len() {
                assert(ends_present(p.nodes, p.edges[i]));
            }
        }
    }
}

proof fn entity_keeps_sound(p: Page, id: u128, row: Option<EntityLabel>)
    requires
        sound(p),
    ensures
        sound(with_entity(p, id, row)),
        keeps_nodes(p, with_entity(p, id, row)),
{
    let seeded = if p.entities.contains(id) {
        p
    } else {
        Page { entities: p.entities.push(id), ..p }
    };
    assert(sound(seeded));
    if let Some(e) = row {
        node_keeps_sound(
            seeded,
            PageNode { id, kind: NODE_ENTITY, label: e.name@, type_qname: e.type_qname@ },
        );
    }
}

/// Walking the spine keeps a page sound.
pub proof fn spine_keeps_pages_sound(
    st: (Page, SpineProgress),
    rows: Seq<SpineRow>,
    limit: u32,
    include_statements: bool,
    which: SpineFilter,
)
    requires
        sound(st.0),
        st.1.consumed <= limit,
    ensures
        sound(spine(st, rows, limit, include_statements, which).0),
        spine(st, rows, limit, include_statements, which).1.consumed <= limit,
    decreases rows.len(),
{
    if rows.len() > 0 {
        spine_keeps_pages_sound(
            st,
            rows.drop_last(),
            limit,
            include_statements,
            which,
        );
        let before = spine(st, rows.drop_last(), limit, include_statements, which);
        let row = rows.last();
        if !before.1.has_more && before.1.consumed != limit && counts_on_spine(
            row,
            which,
        ) {
            statement_keeps_sound(before.0, row.statement->0, include_statements);
        }
    }
}

proof fn statement_keeps_sound(p: Page, s: SpineStatement, include_statements: bool)
    requires
        sound(p),
    ensures
        sound(with_statement(p, s, include_statements)),
{
    if let SubjectRef::Entity(subject) = s.subject {
        entity_keeps_sound(p, number(subject), s.subject_row);
        let q = with_entity(p, number(subject), s.subject_row);
        match s.object {
            StatementObject::EntityRef(object) => {
                entity_keeps_sound(q, number(object), s.object_row);
                edge_keeps_sound(
                    with_entity(q, number(object), s.object_row),
                    PageEdge {
                        from_id: number(subject),
                        to_id: number(object),
                        kind: EDGE_FACT,
                        label: s.predicate@,
                    },
                );
            },
            StatementObject::Value(v) => {
                if include_statements {
                    let n = PageNode {
                        id: number(s.id),
                        kind: NODE_STATEMENT,
                        label: s.predicate@ + ": "@ + value_label(v),
                        type_qname: Seq::empty(),
                    };
                    node_keeps_sound(q, n);
                    edge_keeps_sound(
                        with_node(q, n),
                        PageEdge {
                            from_id: number(subject),
                            to_id: number(s.id),
                            kind: EDGE_HAS_STATEMENT,
                            label: s.predicate@,
                        },
                    );
                }
            },
            _ => {},
        }
    }
}

proof fn relations_keep_sound(st: (Page, nat), entity: u128, rows: Seq<RelationEdge>, outgoing: bool)
    requires
        sound(st.0),
    ensures
        sound(relations_walked(st, entity, rows, outgoing).0),
    decreases rows.len(),
{
    if rows.len() > 0 {
        relations_keep_sound(st, entity, rows.drop_last(), outgoing);
        let before = relations_walked(st, entity, rows.drop_last(), outgoing);
        let row = rows.last();
        match (row.kind, row.other, row.relation) {
            (EdgeKindRef::Typed(_), NodeRef::Entity(other), Some(name)) => {
                entity_keeps_sound(before.0, number(other), row.other_row);
                let q = with_entity(before.0, number(other), row.other_row);
                edge_keeps_sound(
                    q,
                    PageEdge {
                        from_id: if outgoing {
                            entity
                        } else {
                            number(other)
                        },
                        to_id: if outgoing {
                            number(other)
                        } else {
                            entity
                        },
                        kind: EDGE_RELATION,
                        label: name@,
                    },
                );
            },
            _ => {},
        }
    }
}

proof fn mentions_keep_sound(p: Page, entity: u128, rows: Seq<MentionEdge>)
    requires
        sound(p),
    ensures
        sound(mentions_walked(p, entity, rows)),
    decreases rows.len(),
{
    if rows.len() > 0 {
        mentions_keep_sound(p, entity, rows.drop_last());
        let before = mentions_walked(p, entity, rows.drop_last());
        let row = rows.last();
        if let NodeRef::Memory(m) = row.from {
            node_keeps_sound(
                before,
                PageNode {
                    id: m,
                    kind: NODE_MEMORY,
                    label: memory_label(row.text),
                    type_qname: Seq::empty(),
                },
            );
            let q = with_memory(before, m, row.text);
            let seeded = if q.memories.contains(m) {
                q
            } else {
                Page { memories: q.memories.push(m), ..q }
            };
            assert(sound(seeded)) by {
                assert forall|i: int| 0 <= i < seeded.memories.len() implies has_id(
                    seeded.nodes,
                    #[trigger] seeded.memories[i],
                ) by {
                    if i < q.memories.len() {
                        assert(has_id(q.nodes, q.memories[i]));
                    }
                }
            }
            edge_keeps_sound(
                seeded,
                PageEdge { from_id: m, to_id: entity, kind: EDGE_MENTIONS, label: Seq::empty() },
            );
        }
    }
}

/// Walking on from an entity keeps a page sound.
pub proof fn entity_walks_keep_pages_sound(
    p: Page,
    entity: u128,
    outgoing: Seq<RelationEdge>,
    incoming: Seq<RelationEdge>,
    mentions: Seq<MentionEdge>,
    include_memories: bool,
)
    requires
        sound(p),
    ensures
        sound(entity_walked(p, entity, outgoing, incoming, mentions, include_memories)),
{
    relations_keep_sound((p, 0), entity, outgoing, true);
    let st = relations_walked((p, 0), entity, outgoing, true);
    relations_keep_sound(st, entity, incoming, false);
    let q = with_relations(p, entity, outgoing, incoming);
    mentions_keep_sound(q, entity, at_most(mentions, MAX_EDGES_PER_ENTITY as nat));
}

proof fn memory_edges_keep_sound(
    st: (Page, nat),
    anchor: u128,
    rows: Seq<MemoryEdge>,
    outgoing: bool,
)
    requires
        sound(st.0),
        has_id(st.0.nodes, anchor),
    ensures
        sound(memory_edges_walked(st, anchor, rows, outgoing).0),
        has_id(memory_edges_walked(st, anchor, rows, outgoing).0.nodes, anchor),
        memory_edges_walked(st, anchor, rows, outgoing).0.memories == st.0.memories,
    decreases rows.len(),
{
    if rows.len() > 0 {
        memory_edges_keep_sound(st, anchor, rows.drop_last(), outgoing);
        let before = memory_edges_walked(st, anchor, rows.drop_last(), outgoing);
        let row = rows.last();
        match (row.kind, row.other) {
            (EdgeKindRef::Builtin(kind), NodeRef::Memory(other)) => {
                node_keeps_sound(
                    before.0,
                    PageNode {
                        id: other,
                        kind: NODE_MEMORY,
                        label: memory_label(row.text),
                        type_qname: Seq::empty(),
                    },
                );
                let q = with_memory(before.0, other, row.text);
                let ends = edge_ends(kind, anchor, other, outgoing);
                edge_keeps_sound(
                    q,
                    PageEdge {
                        from_id: ends.0,
                        to_id: ends.1,
                        kind: memory_edge_kind(kind),
                        label: edge_name(kind),
                    },
                );
            },
            _ => {},
        }
    }
}

/// Walking on from a memory of the page keeps the page sound: the far ends are
/// on the page, and are not walked on from.
pub proof fn memory_walks_keep_pages_sound(
    p: Page,
    anchor: u128,
    outgoing: Seq<MemoryEdge>,
    incoming: Seq<MemoryEdge>,
)
    requires
        sound(p),
        p.memories.contains(anchor),
    ensures
        sound(with_memory_edges(p, anchor, outgoing, incoming)),
        with_memory_edges(p, anchor, outgoing, incoming).memories == p.memories,
{
    let i = choose|i: int| 0 <= i < p.memories.len() && p.memories[i] == anchor;
    assert(has_id(p.nodes, p.memories[i]));
    memory_edges_keep_sound((p, 0), anchor, outgoing, true);
    let st = memory_edges_walked((p, 0), anchor, outgoing, true);
    memory_edges_keep_sound(st, anchor, incoming, false);
}

/// An empty page is sound.
pub proof fn empty_pages_are_sound()
    ensures
        sound(
            Page {
                nodes: Seq::empty(),
                edges: Seq::empty(),
                entities: Seq::empty(),
                memories: Seq::empty(),
            },
        ),
{
}

/// Walking rows in two parts, as they are read, walks the whole.
pub proof fn spine_walks_compose(
    st: (Page, SpineProgress),
    first: Seq<SpineRow>,
    second: Seq<SpineRow>,
    limit: u32,
    include_statements: bool,
    which: SpineFilter,
)
    ensures
        spine(st, first + second, limit, include_statements, which) == spine(
            spine(st, first, limit, include_statements, which),
            second,
            limit,
            include_statements,
            which,
        ),
    decreases second.len(),
{
    if second.len() == 0 {
        assert(first + second =~= first);
    } else {
        assert((first + second).drop_last() =~= first + second.drop_last());
        spine_walks_compose(
            st,
            first,
            second.drop_last(),
            limit,
            include_statements,
            which,
        );
    }
}

/// A page that is full and not at the end of the spine resumes at its last
/// counted entry: what follows it was not shown.
pub proof fn progress_names_the_last_entry(
    st: (Page, SpineProgress),
    rows: Seq<SpineRow>,
    limit: u32,
    include_statements: bool,
    which: SpineFilter,
)
    requires
        st.1.consumed == 0,
        st.1.last_key is None,
        !st.1.has_more,
        limit > 0,
    ensures
        ({
            let end = spine(st, rows, limit, include_statements, which).1;
            &&& end.consumed == 0 <==> end.last_key is None
            &&& end.last_key matches Some(k) ==> exists|i: int|
                #![trigger rows[i]]
                0 <= i < rows.len() && rows[i].key == k && counts_on_spine(
                    rows[i],
                    which,
                )
            &&& end.has_more ==> end.consumed == limit
            &&& end.consumed <= limit
        }),
    decreases rows.len(),
{
    if rows.len() > 0 {
        let front = rows.drop_last();
        progress_names_the_last_entry(st, front, limit, include_statements, which);
        let before = spine(st, front, limit, include_statements, which).1;
        let end = spine(st, rows, limit, include_statements, which).1;
        if let Some(k) = end.last_key {
            if before.last_key == Some(k) {
                let i = choose|i: int|
                    #![trigger front[i]]
                    0 <= i < front.len() && front[i].key == k && counts_on_spine(
                        front[i],
                        which,
                    );
                assert(rows[i] == front[i]);
            } else {
                assert(rows[rows.len() - 1].key == k);
            }
        }
    }
}

} // verus!
