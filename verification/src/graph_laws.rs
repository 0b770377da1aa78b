//! What an export of the graph draws.
use vstd::prelude::*;

use crate::error::OpError;
use crate::events::{EdgeKind, EdgeKindRef, NodeRef};
use crate::graph_builder::{
    edge_key, edges_view, has_edge, has_id, memory_edge_step, nodes_view, number, relation_step,
    shows_page, spine_step, with_edge, with_entity, with_memory, with_mention, with_node,
    with_statement, GraphFetchResponseFrame, MemoryEdge, MentionEdge, Page, PageEdge, PageNode,
    RelationEdge, SpineFilter, SpineProgress, SpineRow, SpineStatement,
};
use crate::graph_fetch::{
    admits_graph, edge_ends, edge_name, flags_of, graph_cursor, memory_edge_kind,
    key_seq, reads_graph_cursor, reads_key, snipped, spans_spine, symmetric, GraphFetchRequest, StmtKey,
};
use crate::scope::RowScope;
use crate::statement::{StatementObject, SubjectRef};

verus! {

// Drawing.

/// Whether a page draws an edge.
pub open spec fn draws(p: Page, from_id: u128, to_id: u128, kind: u8, label: Seq<char>) -> bool {
    p.edges.contains(PageEdge { from_id, to_id, kind, label })
}

/// Whether a page has a node of an id.
pub open spec fn places(p: Page, id: u128) -> bool {
    exists|i: int| #![trigger p.nodes[i]] 0 <= i < p.nodes.len() && p.nodes[i].id == id
}

proof fn edges_are_drawn(p: Page, e: PageEdge, other: PageEdge)
    ensures
        with_edge(p, e).edges.contains(e),
        with_edge(p, e).nodes == p.nodes && with_edge(p, e).entities == p.entities
            && with_edge(p, e).memories == p.memories,
        with_edge(p, e).edges.contains(other) <==> p.edges.contains(other) || other == e,
{
    let q = with_edge(p, e);
    if has_edge(p.edges, edge_key(e)) {
        let i = choose|i: int| 0 <= i < p.edges.len() && edge_key(#[trigger] p.edges[i]) == edge_key(e);
        assert(p.edges[i] == e);
    } else {
        assert(q.edges[p.edges.len() as int] == e);
        if p.edges.contains(other) {
            let i = choose|i: int| 0 <= i < p.edges.len() && p.edges[i] == other;
            assert(q.edges[i] == other);
        }
        if q.edges.contains(other) {
            let i = choose|i: int| 0 <= i < q.edges.len() && q.edges[i] == other;
            if i < p.edges.len() {
                assert(p.edges[i] == other);
            }
        }
    }
}

proof fn nodes_are_placed(p: Page, n: PageNode)
    ensures
        places(with_node(p, n), n.id),
        !places(p, n.id) ==> with_node(p, n).nodes.contains(n),
        with_node(p, n).edges == p.edges && with_node(p, n).entities == p.entities
            && with_node(p, n).memories == p.memories,
        forall|m: PageNode| #[trigger] p.nodes.contains(m) ==> with_node(p, n).nodes.contains(m),
        forall|m: PageNode| #[trigger]
            with_node(p, n).nodes.contains(m) ==> p.nodes.contains(m) || m == n,
{
    let q = with_node(p, n);
    if has_id(p.nodes, n.id) {
        let i = choose|i: int| 0 <= i < p.nodes.len() && (#[trigger] p.nodes[i]).id == n.id;
        assert(q.nodes[i].id == n.id);
    } else {
        assert(q.nodes[p.nodes.len() as int] == n);
        assert forall|m: PageNode| #[trigger] p.nodes.contains(m) implies q.nodes.contains(m) by {
            let i = choose|i: int| 0 <= i < p.nodes.len() && p.nodes[i] == m;
            assert(q.nodes[i] == m);
        }
        assert forall|m: PageNode| #[trigger] q.nodes.contains(m) implies p.nodes.contains(m) || m
            == n by {
            let i = choose|i: int| 0 <= i < q.nodes.len() && q.nodes[i] == m;
            if i < p.nodes.len() {
                assert(p.nodes[i] == m);
            }
        }
    }
}

/// A node or an edge that is on the page already is not drawn again.
pub proof fn nothing_is_drawn_twice(p: Page, n: PageNode, e: PageEdge)
    ensures
        places(p, n.id) ==> with_node(p, n) == p,
        p.edges.contains(e) ==> with_edge(p, e) == p,
        !places(p, n.id) ==> with_node(p, n).nodes == p.nodes.push(n),
        !p.edges.contains(e) ==> with_edge(p, e).edges == p.edges.push(e),
{
    if p.edges.contains(e) {
        let i = choose|i: int| 0 <= i < p.edges.len() && p.edges[i] == e;
        assert(edge_key(p.edges[i]) == edge_key(e));
    }
    if has_edge(p.edges, edge_key(e)) {
        let i = choose|i: int| 0 <= i < p.edges.len() && edge_key(#[trigger] p.edges[i]) == edge_key(e);
        assert(p.edges[i] == e);
    }
}

/// An entity whose row is there is placed under its name and type, and seeds
/// the walk.
pub proof fn entities_are_placed(
    p: Page,
    id: u128,
    row: Option<crate::graph_builder::EntityLabel>,
)
    ensures
        with_entity(p, id, row).entities.contains(id),
        with_entity(p, id, row).edges == p.edges,
        row is None ==> with_entity(p, id, row).nodes == p.nodes,
        row matches Some(e) ==> places(with_entity(p, id, row), id) && (!places(p, id)
            ==> with_entity(p, id, row).nodes.contains(
            PageNode { id, kind: 0, label: e.name@, type_qname: e.type_qname@ },
        )),
        places(p, id) ==> places(with_entity(p, id, row), id),
        forall|other: u128|
            other != id && #[trigger] places(with_entity(p, id, row), other) ==> places(p, other),
{
    let seeded = if p.entities.contains(id) {
        p
    } else {
        Page { entities: p.entities.push(id), ..p }
    };
    if !p.entities.contains(id) {
        assert(seeded.entities[p.entities.len() as int] == id);
    }
    if let Some(e) = row {
        let n = PageNode { id, kind: 0u8, label: e.name@, type_qname: e.type_qname@ };
        nodes_are_placed(seeded, n);
        assert(places(seeded, id) == places(p, id));
    }
    let q = with_entity(p, id, row);
    assert forall|other: u128| other != id && #[trigger] places(q, other) implies places(
        p,
        other,
    ) by {
        let i = choose|i: int| #![trigger q.nodes[i]] 0 <= i < q.nodes.len() && q.nodes[i].id
            == other;
        assert(p.nodes[i].id == other);
    }
}

/// A statement that links two entities is drawn as a fact between them under
/// its predicate; one that gives an entity a value is drawn as a node of its
/// own, where statements are asked for. A statement about anything else draws
/// nothing.
pub proof fn statements_are_drawn(p: Page, s: SpineStatement, include_statements: bool, e: PageEdge)
    ensures
        s.subject matches SubjectRef::Entity(a) ==> {
            let q = with_statement(p, s, include_statements);
            &&& q.entities.contains(number(a))
            &&& s.subject_row is Some ==> places(q, number(a))
            &&& s.object matches StatementObject::EntityRef(b) ==> {
                &&& draws(q, number(a), number(b), 1, s.predicate@)
                &&& q.entities.contains(number(b))
                &&& s.object_row is Some ==> places(q, number(b))
                &&& q.edges.contains(e) && !p.edges.contains(e) ==> (e.from_id, e.to_id, e.kind)
                    == (number(a), number(b), 1u8)
            }
            &&& s.object is Value && include_statements ==> draws(
                q,
                number(a),
                number(s.id),
                2,
                s.predicate@,
            ) && places(q, number(s.id)) && (!places(p, number(s.id)) && number(s.id) != number(a)
                ==> q.nodes.contains(
                PageNode {
                    id: number(s.id),
                    kind: 1,
                    label: s.predicate@ + ": "@ + crate::labels::value_label(s.object->Value_0),
                    type_qname: Seq::empty(),
                },
            ))
            &&& s.object is Value && !include_statements ==> q.edges == p.edges
            &&& s.object is MemoryRef || s.object is StatementRef ==> q.edges == p.edges
        },
        s.subject !is Entity ==> with_statement(p, s, include_statements) == p,
{
    if let SubjectRef::Entity(a) = s.subject {
        let q = with_entity(p, number(a), s.subject_row);
        entities_are_placed(p, number(a), s.subject_row);
        match s.object {
            StatementObject::EntityRef(b) => {
                let r = with_entity(q, number(b), s.object_row);
                entities_are_placed(q, number(b), s.object_row);
                entities_stay(q, number(b), s.object_row, number(a));
                let x = PageEdge {
                    from_id: number(a),
                    to_id: number(b),
                    kind: 1u8,
                    label: s.predicate@,
                };
                edges_are_drawn(r, x, e);
            },
            StatementObject::Value(v) => {
                if include_statements {
                    let n = PageNode {
                        id: number(s.id),
                        kind: 1u8,
                        label: s.predicate@ + ": "@ + crate::labels::value_label(v),
                        type_qname: Seq::empty(),
                    };
                    nodes_are_placed(q, n);
                    let r = with_node(q, n);
                    if places(q, number(a)) {
                        nodes_stay(q, n, number(a));
                    }
                    let x = PageEdge {
                        from_id: number(a),
                        to_id: number(s.id),
                        kind: 2u8,
                        label: s.predicate@,
                    };
                    edges_are_drawn(r, x, e);
                }
            },
            _ => {},
        }
    }
}

proof fn nodes_stay(p: Page, n: PageNode, id: u128)
    requires
        places(p, id),
    ensures
        places(with_node(p, n), id),
{
    let i = choose|i: int| #![trigger p.nodes[i]] 0 <= i < p.nodes.len() && p.nodes[i].id == id;
    assert(with_node(p, n).nodes[i].id == id);
}

proof fn entities_stay(
    p: Page,
    id: u128,
    row: Option<crate::graph_builder::EntityLabel>,
    other: u128,
)
    ensures
        p.entities.contains(other) ==> with_entity(p, id, row).entities.contains(other),
        places(p, other) ==> places(with_entity(p, id, row), other),
{
    let seeded = if p.entities.contains(id) {
        p
    } else {
        Page { entities: p.entities.push(id), ..p }
    };
    if p.entities.contains(other) {
        let i = choose|i: int| 0 <= i < p.entities.len() && p.entities[i] == other;
        assert(seeded.entities[i] == other);
    }
    if places(p, other) {
        let i = choose|i: int|
            #![trigger p.nodes[i]]
            0 <= i < p.nodes.len() && p.nodes[i].id == other;
        assert(seeded.nodes[i].id == other);
        if let Some(e) = row {
            nodes_stay(
                seeded,
                PageNode { id, kind: 0u8, label: e.name@, type_qname: e.type_qname@ },
                other,
            );
        }
    }
}

/// A declared relation between two entities is drawn from its start to its end
/// under its type's name, while the entity has brought fewer than 512; anything
/// else draws nothing.
pub proof fn relations_are_drawn(p: Page, n: nat, entity: u128, row: RelationEdge, outgoing: bool)
    ensures
        row.kind is Typed && n < 512 ==> (row.other matches NodeRef::Entity(x) ==> (
        row.relation matches Some(name) ==> {
            let (q, m) = relation_step((p, n), entity, row, outgoing);
            &&& m == n + 1
            &&& outgoing ==> draws(q, entity, number(x), 0, name@)
            &&& !outgoing ==> draws(q, number(x), entity, 0, name@)
            &&& q.entities.contains(number(x))
        })),
        row.kind !is Typed || row.other !is Entity || row.relation is None || n >= 512
            ==> relation_step((p, n), entity, row, outgoing) == (p, n),
{
    if let NodeRef::Entity(x) = row.other {
        if let Some(name) = row.relation {
            let q = with_entity(p, number(x), row.other_row);
            entities_are_placed(p, number(x), row.other_row);
            let out = PageEdge { from_id: entity, to_id: number(x), kind: 0u8, label: name@ };
            let back = PageEdge { from_id: number(x), to_id: entity, kind: 0u8, label: name@ };
            edges_are_drawn(q, out, back);
            edges_are_drawn(q, back, out);
        }
    }
}

/// A memory that mentions an entity is placed with the head of its text, seeds
/// the walk of memories, and is drawn to the entity.
pub proof fn mentions_are_drawn(p: Page, entity: u128, row: MentionEdge)
    ensures
        row.from matches NodeRef::Memory(m) ==> {
            let q = with_mention(p, entity, row);
            &&& draws(q, m, entity, 3, Seq::empty())
            &&& places(q, m)
            &&& q.memories.contains(m)
            &&& !places(p, m) ==> (row.text matches Some(t) ==> t@.len() <= 80 ==> q.nodes.contains(
                PageNode { id: m, kind: 2, label: t@, type_qname: Seq::empty() },
            ))
        },
        row.from is Entity ==> with_mention(p, entity, row) == p,
{
    if let NodeRef::Memory(m) = row.from {
        let q = with_memory(p, m, row.text);
        let n = PageNode {
            id: m,
            kind: 2u8,
            label: crate::graph_builder::memory_label(row.text),
            type_qname: Seq::empty(),
        };
        nodes_are_placed(p, n);
        let seeded = if q.memories.contains(m) {
            q
        } else {
            Page { memories: q.memories.push(m), ..q }
        };
        if !q.memories.contains(m) {
            assert(seeded.memories[q.memories.len() as int] == m);
        }
        let x = PageEdge { from_id: m, to_id: entity, kind: 3u8, label: Seq::empty() };
        edges_are_drawn(seeded, x, x);
        if places(q, m) {
            let i = choose|i: int| #![trigger q.nodes[i]] 0 <= i < q.nodes.len() && q.nodes[i].id
                == m;
            assert(with_edge(seeded, x).nodes[i].id == m);
        }
    }
}

/// A built-in edge between two memories is drawn under its name, from its start
/// to its end, while the memory has brought fewer than 512. An edge that means
/// the same both ways is drawn one way, from the smaller id.
pub proof fn memory_edges_are_drawn(
    p: Page,
    n: nat,
    anchor: u128,
    kind: EdgeKind,
    other: u128,
    row: MemoryEdge,
    outgoing: bool,
)
    requires
        row.kind == EdgeKindRef::Builtin(kind),
        row.other == NodeRef::Memory(other),
        n < 512,
    ensures
        ({
            let (q, m) = memory_edge_step((p, n), anchor, row, outgoing);
            let both_ways = kind is SimilarTo || kind is Contradicts;
            &&& m == n + 1
            &&& places(q, other)
            &&& !both_ways && outgoing ==> draws(q, anchor, other, (4 + kind.byte()) as u8, edge_name(kind))
            &&& !both_ways && !outgoing ==> draws(q, other, anchor, (4 + kind.byte()) as u8, edge_name(kind))
            &&& both_ways && anchor <= other ==> draws(q, anchor, other, (4 + kind.byte()) as u8, edge_name(kind))
            &&& both_ways && anchor > other ==> draws(q, other, anchor, (4 + kind.byte()) as u8, edge_name(kind))
        }),
{
    let ends = edge_ends(kind, anchor, other, outgoing);
    let q = with_memory(p, other, row.text);
    let n = PageNode {
        id: other,
        kind: 2u8,
        label: crate::graph_builder::memory_label(row.text),
        type_qname: Seq::empty(),
    };
    nodes_are_placed(p, n);
    let x = PageEdge {
        from_id: ends.0,
        to_id: ends.1,
        kind: memory_edge_kind(kind),
        label: edge_name(kind),
    };
    edges_are_drawn(q, x, x);
    let i = choose|i: int| #![trigger q.nodes[i]] 0 <= i < q.nodes.len() && q.nodes[i].id == other;
    assert(with_edge(q, x).nodes[i].id == other);
}

/// The names of the built-in edges.
pub proof fn built_in_edges_have_their_names(kind: EdgeKind)
    ensures
        kind is Caused ==> edge_name(kind) == "caused"@ && memory_edge_kind(kind) == 4,
        kind is FollowedBy ==> edge_name(kind) == "followed_by"@ && memory_edge_kind(kind) == 5,
        kind is DerivedFrom ==> edge_name(kind) == "derived_from"@ && memory_edge_kind(kind) == 6,
        kind is SimilarTo ==> edge_name(kind) == "similar_to"@ && memory_edge_kind(kind) == 7,
        kind is Contradicts ==> edge_name(kind) == "contradicts"@ && memory_edge_kind(kind) == 8,
        kind is Supports ==> edge_name(kind) == "supports"@ && memory_edge_kind(kind) == 9,
        kind is References ==> edge_name(kind) == "references"@ && memory_edge_kind(kind) == 10,
        kind is PartOf ==> edge_name(kind) == "part_of"@ && memory_edge_kind(kind) == 11,
        symmetric(kind) <==> kind is SimilarTo || kind is Contradicts,
{
}

/// A text is shown whole up to eighty characters; a longer one by its first
/// eighty and an ellipsis.
pub proof fn long_texts_are_shown_by_their_head(text: Seq<char>, i: int)
    ensures
        text.len() <= 80 ==> snipped(text) == text,
        text.len() > 80 ==> snipped(text).len() == 81 && snipped(text)[80] == '\u{2026}' && (0 <= i
            < 80 ==> snipped(text)[i] == text[i]),
{
}

// Walking.

/// The walk takes a statement of the caller that is current and not tombstoned,
/// unless such are asked for; it takes no other, and after its limit it only
/// says that there is more.
pub proof fn walks_take_current_statements(
    st: (Page, SpineProgress),
    row: SpineRow,
    limit: u32,
    include_statements: bool,
    which: SpineFilter,
)
    requires
        st.1.consumed <= limit,
        !st.1.has_more,
    ensures
        ({
            let own = row.key.0 == which.caller.namespace_id && row.key.1
                == which.caller.space_id_bytes;
            let current = row.key.5 != 0;
            let (p, progress) = spine_step(st, row, limit, include_statements, which);
            &&& !own ==> (p, progress) == st
            &&& own && st.1.consumed == limit ==> p == st.0 && progress.has_more
                && progress.last_key == st.1.last_key && progress.consumed == st.1.consumed
            &&& own && st.1.consumed < limit ==> {
                &&& !current || row.statement is None ==> (p, progress) == st
                &&& current ==> (row.statement matches Some(s) ==> {
                    &&& s.tombstoned && !which.include_tombstoned ==> (p, progress) == st
                    &&& !s.tombstoned || which.include_tombstoned ==> p == with_statement(
                        st.0,
                        s,
                        include_statements,
                    ) && progress.consumed == st.1.consumed + 1 && progress.last_key == Some(
                        row.key,
                    ) && !progress.has_more
                })
            }
        }),
{
}

/// A fetch takes one to five hundred statements, draws edges of memories only
/// with the memories, and starts at the first statement without a cursor. The
/// cursor of a page resumes after the statement that it names, for the same
/// layers and the same tenant alone.
pub proof fn fetches_resume_their_own_pages(
    r: Result<Option<StmtKey>, OpError>,
    req: GraphFetchRequest,
    caller: RowScope,
    flags: u8,
    key: StmtKey,
)
    requires
        admits_graph(r, req, caller),
    ensures
        r is Ok ==> 1 <= req.limit <= 500 && (req.include_memory_edges ==> req.include_memories),
        r matches Err(e) ==> e is InvalidRequest,
        1 <= req.limit <= 500 && (req.include_memory_edges ==> req.include_memories)
            && req.cursor@.len() == 0 ==> (r matches Ok(k) && k is None),
        req.cursor@ == graph_cursor(flags, key) && 1 <= req.limit <= 500 && (
        req.include_memory_edges ==> req.include_memories) && flags as int == flags_of(req) && key.0
            == caller.namespace_id && key.1 == caller.space_id_bytes ==> (r matches Ok(k) && k
            == Some(key)),
        req.cursor@ == graph_cursor(flags, key) && (flags as int != flags_of(req) || key.0
            != caller.namespace_id || key.1 != caller.space_id_bytes) ==> r is Err,
{
    crate::graph_fetch::key_bytes_are_unique(key, key);
    let asked = flags_of(req) as u8;
    crate::graph_fetch::graph_cursor_round_trip(flags, key, asked, key);
    crate::graph_fetch::prefix_tells_the_scope(flags, key, caller);
    if let Ok(Some(k)) = r {
        crate::graph_fetch::graph_cursor_round_trip(asked, key, asked, k);
    }
}

/// The layers of a fetch have a flag each.
pub proof fn layers_have_a_flag_each(req: GraphFetchRequest)
    ensures
        flags_of(req) == (if req.include_statements {
            1int
        } else {
            0
        }) + (if req.include_memories {
            2int
        } else {
            0
        }) + (if req.include_tombstoned {
            4int
        } else {
            0
        }) + (if req.include_memory_edges {
            8int
        } else {
            0
        }),
{
}

/// The walk of a tenant spans every key of that tenant, and no other.
pub proof fn spines_span_their_tenant(r: (StmtKey, StmtKey), scope: RowScope, i: int)
    requires
        spans_spine(r, scope),
    ensures
        (r.0.0, r.0.1) == (scope.namespace_id, scope.space_id_bytes),
        (r.1.0, r.1.1) == (scope.namespace_id, scope.space_id_bytes),
        0 <= i < 16 ==> r.0.2@[i] == 0 && r.1.2@[i] == 255 && r.0.6@[i] == 0 && r.1.6@[i] == 255,
        (r.0.3, r.0.4, r.0.5) == (0u8, 0u32, 0u8),
        (r.1.3, r.1.4, r.1.5) == (255u8, 0xFFFF_FFFFu32, 255u8),
{
}

/// A page is shown node by node and edge by edge, and has a cursor exactly
/// where there is more: the key of its last statement.
pub proof fn graph_pages_are_shown(
    r: GraphFetchResponseFrame,
    page: Page,
    flags: u8,
    progress: SpineProgress,
    i: int,
)
    requires
        shows_page(r, page, flags, progress),
    ensures
        r.nodes@.len() == page.nodes.len() && r.edges@.len() == page.edges.len() && r.is_final,
        0 <= i < page.nodes.len() ==> number(r.nodes@[i].id) == page.nodes[i].id && r.nodes@[i].kind
            == page.nodes[i].kind && r.nodes@[i].label@ == page.nodes[i].label
            && r.nodes@[i].type_qname@ == page.nodes[i].type_qname,
        0 <= i < page.edges.len() ==> number(r.edges@[i].from_id) == page.edges[i].from_id
            && number(r.edges@[i].to_id) == page.edges[i].to_id && r.edges@[i].kind
            == page.edges[i].kind && r.edges@[i].label@ == page.edges[i].label,
        r.next_cursor@.len() > 0 <==> progress.has_more && progress.last_key is Some,
        progress.has_more ==> (progress.last_key matches Some(k) ==> r.next_cursor@ == graph_cursor(
            flags,
            k,
        )),
{
    if let Some(k) = progress.last_key {
        crate::graph_fetch::key_bytes_are_unique(k, k);
    }
    if 0 <= i < page.nodes.len() {
        assert(nodes_view(r.nodes@)[i] == page.nodes[i]);
    }
    if 0 <= i < page.edges.len() {
        assert(edges_view(r.edges@)[i] == page.edges[i]);
    }
}

/// The cursor of a graph gives back its key to the same layers alone.
pub proof fn graph_cursors_give_back_their_key(
    r: Result<StmtKey, OpError>,
    flags: u8,
    asked: u8,
    key: StmtKey,
)
    requires
        reads_graph_cursor(r, graph_cursor(flags, key), asked),
    ensures
        r is Ok <==> asked == flags,
        r matches Ok(k) ==> k == key,
{
    crate::graph_fetch::graph_cursor_round_trip(flags, key, asked, key);
    if let Ok(k) = r {
        crate::graph_fetch::graph_cursor_round_trip(flags, key, asked, k);
    }
}

/// The bytes of a key give back the key, and no other length does.
pub proof fn key_bytes_give_back_their_key(r: Option<StmtKey>, b: Seq<u8>, key: StmtKey)
    requires
        reads_key(r, b),
    ensures
        b == key_seq(key) ==> r == Some(key),
        b.len() != 58 ==> r is None,
        b.len() == 58 ==> r is Some,
{
    crate::graph_fetch::key_bytes_are_unique(key, key);
    if let Some(k) = r {
        crate::graph_fetch::key_bytes_are_unique(k, key);
    }
}

} // verus!
