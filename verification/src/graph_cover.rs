//! What the pages of the exported graph show together.
use vstd::prelude::*;

use crate::events::NodeRef;
use crate::graph_builder::{
    counts_on_spine, edge_key, entity_walked, entity_walks_keep_pages_sound, has_edge, has_id,
    memory_edges_walked, memory_label, memory_walks_keep_pages_sound, mentions_walked, number,
    relations_walked, sound, spine, with_edge, with_entity, with_memory, with_memory_edges,
    with_mention, with_node, with_relations, with_statement, EdgeKey, EntityLabel, MemoryEdge, MentionEdge,
    Page, PageEdge, PageNode, RelationEdge, SpineFilter, SpineProgress, SpineRow, SpineStatement,
    MAX_EDGES_PER_ENTITY, MAX_EDGES_PER_MEMORY,
};
use crate::graph_fetch::{
    edge_ends, edge_name, key_in_scope, memory_edge_kind, StmtKey, EDGE_FACT, EDGE_HAS_STATEMENT, EDGE_MENTIONS,
    EDGE_RELATION, NODE_ENTITY, NODE_MEMORY, NODE_STATEMENT,
};
use crate::labels::value_label;
use crate::membership::at_most;
use crate::scope::RowScope;
use crate::statement::{StatementObject, SubjectRef};

verus! {

/// Whether everything on one page is on another.
pub open spec fn keeps(p: Page, q: Page) -> bool {
    &&& forall|id: u128| has_id(p.nodes, id) ==> has_id(q.nodes, id)
    &&& forall|k: EdgeKey| has_edge(p.edges, k) ==> has_edge(q.edges, k)
    &&& forall|id: u128| p.entities.contains(id) ==> q.entities.contains(id)
    &&& forall|id: u128| p.memories.contains(id) ==> q.memories.contains(id)
}

/// Whether a page shows an entity: as a seed of the walk, and as a node where
/// its row is there.
pub open spec fn shows_entity(p: Page, id: u128, has_row: bool) -> bool {
    p.entities.contains(id) && (has_row ==> has_id(p.nodes, id))
}

/// Whether a page shows a statement: its subject, and its object as an entity
/// or, where statements are asked for, as a node of its own, with the edge
/// between them. A statement about anything but an entity has no place on the
/// graph.
pub open spec fn shows_statement(p: Page, s: SpineStatement, include_statements: bool) -> bool {
    match s.subject {
        SubjectRef::Entity(subject) => {
            &&& shows_entity(p, number(subject), s.subject_row is Some)
            &&& match s.object {
                StatementObject::EntityRef(object) => {
                    &&& shows_entity(p, number(object), s.object_row is Some)
                    &&& has_edge(
                        p.edges,
                        (number(subject), number(object), EDGE_FACT, s.predicate@),
                    )
                },
                StatementObject::Value(_) => include_statements ==> has_id(p.nodes, number(s.id))
                    && has_edge(
                    p.edges,
                    (number(subject), number(s.id), EDGE_HAS_STATEMENT, s.predicate@),
                ),
                _ => true,
            }
        },
        _ => true,
    }
}

proof fn pushed_is_there<T>(s: Seq<T>, x: T)
    ensures
        s.push(x).contains(x),
        forall|y: T| s.contains(y) ==> s.push(x).contains(y),
{
    assert(s.push(x)[s.len() as int] == x);
    assert forall|y: T| s.contains(y) implies s.push(x).contains(y) by {
        let i = choose|i: int| 0 <= i < s.len() && s[i] == y;
        assert(s.push(x)[i] == y);
    }
}

proof fn node_is_kept(p: Page, n: PageNode)
    ensures
        keeps(p, with_node(p, n)),
        has_id(with_node(p, n).nodes, n.id),
{
    let q = with_node(p, n);
    if !has_id(p.nodes, n.id) {
        assert(q.nodes[p.nodes.len() as int].id == n.id);
        assert forall|id: u128| has_id(p.nodes, id) implies has_id(q.nodes, id) by {
            let i = choose|i: int| 0 <= i < p.nodes.len() && (#[trigger] p.nodes[i]).id == id;
            assert(q.nodes[i].id == id);
        }
    }
}

proof fn edge_is_kept(p: Page, e: PageEdge)
    ensures
        keeps(p, with_edge(p, e)),
        has_edge(with_edge(p, e).edges, edge_key(e)),
{
    let q = with_edge(p, e);
    if !has_edge(p.edges, edge_key(e)) {
        assert(edge_key(q.edges[p.edges.len() as int]) == edge_key(e));
        assert forall|k: EdgeKey| has_edge(p.edges, k) implies has_edge(q.edges, k) by {
            let i = choose|i: int| 0 <= i < p.edges.len() && edge_key(#[trigger] p.edges[i]) == k;
            assert(edge_key(q.edges[i]) == k);
        }
    }
}

proof fn entity_is_kept(
    p: Page,
    id: u128,
    row: Option<EntityLabel>,
)
    ensures
        keeps(p, with_entity(p, id, row)),
        shows_entity(with_entity(p, id, row), id, row is Some),
{
    let seeded = if p.entities.contains(id) {
        p
    } else {
        Page { entities: p.entities.push(id), ..p }
    };
    pushed_is_there(p.entities, id);
    assert(keeps(p, seeded));
    if let Some(e) = row {
        node_is_kept(
            seeded,
            PageNode {
                id,
                kind: NODE_ENTITY,
                label: e.name@,
                type_qname: e.type_qname@,
            },
        );
    }
}

proof fn memory_is_kept(p: Page, id: u128, text: Option<String>)
    ensures
        keeps(p, with_memory(p, id, text)),
        has_id(with_memory(p, id, text).nodes, id),
{
    node_is_kept(
        p,
        PageNode {
            id,
            kind: NODE_MEMORY,
            label: memory_label(text),
            type_qname: Seq::empty(),
        },
    );
}

proof fn statement_is_kept(p: Page, s: SpineStatement, include_statements: bool)
    ensures
        keeps(p, with_statement(p, s, include_statements)),
        shows_statement(with_statement(p, s, include_statements), s, include_statements),
{
    if let SubjectRef::Entity(subject) = s.subject {
        entity_is_kept(p, number(subject), s.subject_row);
        let q = with_entity(p, number(subject), s.subject_row);
        match s.object {
            StatementObject::EntityRef(object) => {
                entity_is_kept(q, number(object), s.object_row);
                edge_is_kept(
                    with_entity(q, number(object), s.object_row),
                    PageEdge {
                        from_id: number(subject),
                        to_id: number(object),
                        kind: EDGE_FACT,
                        label: s.predicate@,
                    },
                );
            },
            StatementObject::Value(v) => {
                if include_statements {
                    let n = PageNode {
                        id: number(s.id),
                        kind: NODE_STATEMENT,
                        label: s.predicate@ + ": "@ + value_label(v),
                        type_qname: Seq::empty(),
                    };
                    node_is_kept(q, n);
                    edge_is_kept(
                        with_node(q, n),
                        PageEdge {
                            from_id: number(subject),
                            to_id: number(s.id),
                            kind: EDGE_HAS_STATEMENT,
                            label: s.predicate@,
                        },
                    );
                }
            },
            _ => {},
        }
    }
}

// The spine, page by page.

/// A page before anything is on it.
pub open spec fn empty_page() -> Page {
    Page {
        nodes: Seq::empty(),
        edges: Seq::empty(),
        entities: Seq::empty(),
        memories: Seq::empty(),
    }
}

/// A walk that has not begun.
pub open spec fn at_start() -> SpineProgress {
    SpineProgress { consumed: 0, last_key: None, has_more: false }
}

/// The first page of rows, as far as the spine makes it.
pub open spec fn first_page(
    rows: Seq<SpineRow>,
    limit: u32,
    include_statements: bool,
    which: SpineFilter,
) -> (Page, SpineProgress) {
    spine((empty_page(), at_start()), rows, limit, include_statements, which)
}

/// The rows that follow the one with a key.
pub open spec fn rows_after(rows: Seq<SpineRow>, key: StmtKey) -> Seq<SpineRow> {
    rows.skip(1 + choose|i: int| 0 <= i < rows.len() && (#[trigger] rows[i]).key == key)
}

/// Whether no key occurs twice.
pub open spec fn distinct_keys(rows: Seq<SpineRow>) -> bool {
    forall|i: int, j: int|
        #![trigger rows[i], rows[j]]
        0 <= i < j < rows.len() ==> rows[i].key != rows[j].key
}

/// The pages of a whole spine: each resumes after the last row that the page
/// before it counted.
pub open spec fn spine_pages(
    rows: Seq<SpineRow>,
    limit: u32,
    include_statements: bool,
    which: SpineFilter,
) -> Seq<Page>
    decreases rows.len(),
{
    let (page, end) = first_page(rows, limit, include_statements, which);
    match end.last_key {
        Some(key) if end.has_more && rows_after(rows, key).len() < rows.len() => seq![page]
            + spine_pages(rows_after(rows, key), limit, include_statements, which),
        _ => seq![page],
    }
}

/// Where a page ends: every counted row before that is shown on it, and it
/// resumes right there, unless nothing that counts is left.
proof fn page_end(
    rows: Seq<SpineRow>,
    limit: u32,
    include_statements: bool,
    which: SpineFilter,
) -> (m: int)
    requires
        limit > 0,
    ensures
        0 <= m <= rows.len(),
        ({
            let (page, end) = first_page(rows, limit, include_statements, which);
            &&& forall|i: int|
                0 <= i < m && counts_on_spine(#[trigger] rows[i], which)
                    ==> shows_statement(page, rows[i].statement->0, include_statements)
            &&& !end.has_more ==> forall|i: int|
                m <= i < rows.len() ==> !counts_on_spine(#[trigger] rows[i], which)
            &&& m == 0 ==> end.last_key is None && end.consumed == 0
            &&& m > 0 ==> end.last_key == Some(rows[m - 1].key) && end.consumed > 0
            &&& end.has_more ==> m > 0
            &&& end.consumed <= limit
        }),
    decreases rows.len(),
{
    if rows.len() == 0 {
        0
    } else {
        let front = rows.drop_last();
        let k = page_end(front, limit, include_statements, which);
        let (before, so_far) = first_page(front, limit, include_statements, which);
        let (page, end) = first_page(rows, limit, include_statements, which);
        let row = rows.last();
        assert forall|i: int| 0 <= i < front.len() implies front[i] == #[trigger] rows[i] by {}
        if so_far.has_more || so_far.consumed == limit || !counts_on_spine(
            row,
            which,
        ) {
            assert(page == before);
            if k > 0 {
                assert(front[k - 1] == rows[k - 1]);
            }
            k
        } else {
            statement_is_kept(before, row.statement->0, include_statements);
            assert forall|i: int|
                0 <= i < rows.len() && counts_on_spine(
                    #[trigger] rows[i],
                    which,
                ) implies shows_statement(page, rows[i].statement->0, include_statements) by {
                if i < front.len() {
                    assert(rows[i] == front[i]);
                    kept_statements_stay_shown(before, page, front[i].statement->0, include_statements);
                }
            }
            rows.len() as int
        }
    }
}

/// Whether an entry of the spine is the caller's.
pub open spec fn own_rows(caller: RowScope) -> spec_fn(SpineRow) -> bool {
    |row: SpineRow| key_in_scope(row.key, caller)
}

/// Only the caller's own entries are walked: the page and the progress are
/// those of the caller's entries alone, every entry that counts is the
/// caller's, and so is the key that the next page resumes after.
pub proof fn spine_stays_in_the_scope(
    st: (Page, SpineProgress),
    rows: Seq<SpineRow>,
    limit: u32,
    include_statements: bool,
    which: SpineFilter,
)
    requires
        st.1.last_key matches Some(k) ==> key_in_scope(k, which.caller),
    ensures
        spine(st, rows, limit, include_statements, which) == spine(
            st,
            rows.filter(own_rows(which.caller)),
            limit,
            include_statements,
            which,
        ),
        forall|i: int|
            0 <= i < rows.len() && counts_on_spine(#[trigger] rows[i], which) ==> key_in_scope(
                rows[i].key,
                which.caller,
            ),
        spine(st, rows, limit, include_statements, which).1.last_key matches Some(k)
            ==> key_in_scope(k, which.caller),
    decreases rows.len(),
{
    reveal(Seq::filter);
    if rows.len() > 0 {
        let front = rows.drop_last();
        spine_stays_in_the_scope(st, front, limit, include_statements, which);
        let own = own_rows(which.caller);
        if own(rows.last()) {
            assert(rows.filter(own).drop_last() =~= front.filter(own));
            assert(rows.filter(own).last() == rows.last());
        }
    }
}

/// Every statement of the spine that counts is shown on at least one page,
/// whatever the size of the pages: none is lost between two of them.
pub proof fn pages_cover_the_spine(
    rows: Seq<SpineRow>,
    limit: u32,
    include_statements: bool,
    which: SpineFilter,
    at: int,
)
    requires
        limit > 0,
        distinct_keys(rows),
        0 <= at < rows.len(),
        counts_on_spine(rows[at], which),
    ensures
        ({
            let pages = spine_pages(rows, limit, include_statements, which);
            exists|j: int|
                0 <= j < pages.len() && shows_statement(
                    #[trigger] pages[j],
                    rows[at].statement->0,
                    include_statements,
                )
        }),
    decreases rows.len(),
{
    let m = page_end(rows, limit, include_statements, which);
    let (page, end) = first_page(rows, limit, include_statements, which);
    let pages = spine_pages(rows, limit, include_statements, which);
    if at < m {
        assert(pages[0] == page);
    } else {
        let key = rows[m - 1].key;
        let i = choose|i: int| 0 <= i < rows.len() && (#[trigger] rows[i]).key == key;
        assert(rows[m - 1].key == key);
        assert(rows[i].key == key);
        assert(i == m - 1);
        let rest = rows_after(rows, key);
        assert(rest == rows.skip(m));
        assert forall|a: int, b: int|
            #![trigger rest[a], rest[b]]
            0 <= a < b < rest.len() implies rest[a].key != rest[b].key by {
            assert(rest[a] == rows[a + m]);
            assert(rest[b] == rows[b + m]);
        }
        assert(rest[at - m] == rows[at]);
        pages_cover_the_spine(rest, limit, include_statements, which, at - m);
        let others = spine_pages(rest, limit, include_statements, which);
        let j = choose|j: int|
            0 <= j < others.len() && shows_statement(
                #[trigger] others[j],
                rows[at].statement->0,
                include_statements,
            );
        assert(pages[j + 1] == others[j]);
    }
}

// Walking on from what a page shows.

/// Whether an edge at an entity is a relation of a known type between
/// entities.
pub open spec fn is_relation(row: RelationEdge) -> bool {
    row.kind is Typed && row.other is Entity && row.relation is Some
}

/// How many relations there are among edges.
pub open spec fn relation_count(rows: Seq<RelationEdge>) -> nat
    decreases rows.len(),
{
    if rows.len() == 0 {
        0
    } else {
        relation_count(rows.drop_last()) + if is_relation(rows.last()) {
            1nat
        } else {
            0
        }
    }
}

/// Whether a page shows a relation of an entity: the far entity, and the edge
/// with the relation's type.
pub open spec fn shows_relation(p: Page, entity: u128, row: RelationEdge, outgoing: bool) -> bool {
    let other = number(row.other->Entity_0);
    &&& shows_entity(p, other, row.other_row is Some)
    &&& has_edge(
        p.edges,
        if outgoing {
            (entity, other, EDGE_RELATION, row.relation->0@)
        } else {
            (other, entity, EDGE_RELATION, row.relation->0@)
        },
    )
}

proof fn relations_are_shown(st: (Page, nat), entity: u128, rows: Seq<RelationEdge>, outgoing: bool)
    requires
        st.1 <= MAX_EDGES_PER_ENTITY,
    ensures
        ({
            let end = relations_walked(st, entity, rows, outgoing);
            &&& keeps(st.0, end.0)
            &&& end.1 <= MAX_EDGES_PER_ENTITY
            &&& end.1 <= st.1 + relation_count(rows)
            &&& forall|i: int|
                0 <= i < rows.len() && is_relation(#[trigger] rows[i]) && st.1 + relation_count(
                    rows.take(i),
                ) < MAX_EDGES_PER_ENTITY ==> shows_relation(end.0, entity, rows[i], outgoing)
        }),
    decreases rows.len(),
{
    if rows.len() > 0 {
        let front = rows.drop_last();
        let row = rows.last();
        relations_are_shown(st, entity, front, outgoing);
        let before = relations_walked(st, entity, front, outgoing);
        let end = relations_walked(st, entity, rows, outgoing);
        if is_relation(row) && before.1 < MAX_EDGES_PER_ENTITY {
            let other = number(row.other->Entity_0);
            entity_is_kept(before.0, other, row.other_row);
            edge_is_kept(
                with_entity(before.0, other, row.other_row),
                PageEdge {
                    from_id: if outgoing {
                        entity
                    } else {
                        other
                    },
                    to_id: if outgoing {
                        other
                    } else {
                        entity
                    },
                    kind: EDGE_RELATION,
                    label: row.relation->0@,
                },
            );
            assert(shows_relation(end.0, entity, row, outgoing));
        }
        assert(keeps(before.0, end.0));
        assert forall|i: int|
            0 <= i < rows.len() && is_relation(#[trigger] rows[i]) && st.1 + relation_count(
                rows.take(i),
            ) < MAX_EDGES_PER_ENTITY implies shows_relation(end.0, entity, rows[i], outgoing) by {
            if i < front.len() {
                assert(front[i] == rows[i]);
                assert(front.take(i) =~= rows.take(i));
            } else {
                assert(rows.take(i) =~= front);
            }
        }
    }
}

/// Whether a page shows a mention of an entity: the memory, as a node and as a
/// seed of the memory walk, and the edge.
pub open spec fn shows_mention(p: Page, entity: u128, row: MentionEdge) -> bool {
    row.from matches NodeRef::Memory(m) ==> has_id(p.nodes, m) && p.memories.contains(m)
        && has_edge(p.edges, (m, entity, EDGE_MENTIONS, Seq::empty()))
}

proof fn mentions_are_shown(p: Page, entity: u128, rows: Seq<MentionEdge>)
    ensures
        keeps(p, mentions_walked(p, entity, rows)),
        forall|i: int|
            0 <= i < rows.len() ==> shows_mention(
                mentions_walked(p, entity, rows),
                entity,
                #[trigger] rows[i],
            ),
    decreases rows.len(),
{
    if rows.len() > 0 {
        let front = rows.drop_last();
        let row = rows.last();
        mentions_are_shown(p, entity, front);
        let before = mentions_walked(p, entity, front);
        let end = with_mention(before, entity, row);
        if let NodeRef::Memory(m) = row.from {
            memory_is_kept(before, m, row.text);
            let q = with_memory(before, m, row.text);
            pushed_is_there(q.memories, m);
            let seeded = if q.memories.contains(m) {
                q
            } else {
                Page { memories: q.memories.push(m), ..q }
            };
            assert(keeps(q, seeded));
            edge_is_kept(
                seeded,
                PageEdge { from_id: m, to_id: entity, kind: EDGE_MENTIONS, label: Seq::empty() },
            );
        }
        assert(keeps(before, end));
        assert forall|i: int| 0 <= i < rows.len() implies shows_mention(
            end,
            entity,
            #[trigger] rows[i],
        ) by {
            if i < front.len() {
                assert(front[i] == rows[i]);
            }
        }
    }
}

/// Whether a page shows the relations of an entity, as many as one entity may
/// bring, counted outgoing ones first.
pub open spec fn shows_relations(
    p: Page,
    entity: u128,
    outgoing: Seq<RelationEdge>,
    incoming: Seq<RelationEdge>,
) -> bool {
    &&& forall|i: int|
        0 <= i < outgoing.len() && is_relation(#[trigger] outgoing[i]) && relation_count(
            outgoing.take(i),
        ) < MAX_EDGES_PER_ENTITY ==> shows_relation(p, entity, outgoing[i], true)
    &&& forall|i: int|
        0 <= i < incoming.len() && is_relation(#[trigger] incoming[i]) && relation_count(outgoing)
            + relation_count(incoming.take(i)) < MAX_EDGES_PER_ENTITY ==> shows_relation(
            p,
            entity,
            incoming[i],
            false,
        )
}

/// Whether a page shows the mentions of an entity, as many as one entity may
/// bring.
pub open spec fn shows_mentions(p: Page, entity: u128, mentions: Seq<MentionEdge>) -> bool {
    forall|i: int|
        0 <= i < mentions.len() && i < MAX_EDGES_PER_ENTITY ==> shows_mention(
            p,
            entity,
            #[trigger] mentions[i],
        )
}

/// Walking on from an entity takes nothing off the page and shows its edges,
/// as many as one entity may bring: each relation, counted outgoing ones
/// first, and each mention, where memories are asked for.
pub proof fn entity_walks_show_edges(
    p: Page,
    entity: u128,
    outgoing: Seq<RelationEdge>,
    incoming: Seq<RelationEdge>,
    mentions: Seq<MentionEdge>,
    include_memories: bool,
)
    ensures
        ({
            let q = entity_walked(p, entity, outgoing, incoming, mentions, include_memories);
            &&& keeps(p, q)
            &&& shows_relations(q, entity, outgoing, incoming)
            &&& include_memories ==> shows_mentions(q, entity, mentions)
        }),
{
    relations_are_shown((p, 0), entity, outgoing, true);
    let half = relations_walked((p, 0), entity, outgoing, true);
    relations_are_shown(half, entity, incoming, false);
    let related = with_relations(p, entity, outgoing, incoming);
    let walked = at_most(mentions, MAX_EDGES_PER_ENTITY as nat);
    mentions_are_shown(related, entity, walked);
    let q = entity_walked(p, entity, outgoing, incoming, mentions, include_memories);
    assert(keeps(related, q));
    assert forall|i: int|
        include_memories && 0 <= i < mentions.len() && i
            < MAX_EDGES_PER_ENTITY implies shows_mention(q, entity, #[trigger] mentions[i]) by {
        assert(walked[i] == mentions[i]);
    }
}

/// Whether an edge at a memory is a stored link to another memory.
pub open spec fn is_link(row: MemoryEdge) -> bool {
    row.kind is Builtin && row.other is Memory
}

/// How many links there are among edges.
pub open spec fn link_count(rows: Seq<MemoryEdge>) -> nat
    decreases rows.len(),
{
    if rows.len() == 0 {
        0
    } else {
        link_count(rows.drop_last()) + if is_link(rows.last()) {
            1nat
        } else {
            0
        }
    }
}

/// Whether a page shows a link of a memory: the far memory and the edge.
pub open spec fn shows_link(p: Page, anchor: u128, row: MemoryEdge, outgoing: bool) -> bool {
    let other = row.other->Memory_0;
    let kind = row.kind->Builtin_0;
    let ends = edge_ends(kind, anchor, other, outgoing);
    has_id(p.nodes, other) && has_edge(
        p.edges,
        (ends.0, ends.1, memory_edge_kind(kind), edge_name(kind)),
    )
}

proof fn links_are_shown(st: (Page, nat), anchor: u128, rows: Seq<MemoryEdge>, outgoing: bool)
    requires
        st.1 <= MAX_EDGES_PER_MEMORY,
    ensures
        ({
            let end = memory_edges_walked(st, anchor, rows, outgoing);
            &&& keeps(st.0, end.0)
            &&& end.1 <= MAX_EDGES_PER_MEMORY
            &&& end.1 <= st.1 + link_count(rows)
            &&& forall|i: int|
                0 <= i < rows.len() && is_link(#[trigger] rows[i]) && st.1 + link_count(
                    rows.take(i),
                ) < MAX_EDGES_PER_MEMORY ==> shows_link(end.0, anchor, rows[i], outgoing)
        }),
    decreases rows.len(),
{
    if rows.len() > 0 {
        let front = rows.drop_last();
        let row = rows.last();
        links_are_shown(st, anchor, front, outgoing);
        let before = memory_edges_walked(st, anchor, front, outgoing);
        let end = memory_edges_walked(st, anchor, rows, outgoing);
        if is_link(row) && before.1 < MAX_EDGES_PER_MEMORY {
            let other = row.other->Memory_0;
            let kind = row.kind->Builtin_0;
            let ends = edge_ends(kind, anchor, other, outgoing);
            memory_is_kept(before.0, other, row.text);
            edge_is_kept(
                with_memory(before.0, other, row.text),
                PageEdge {
                    from_id: ends.0,
                    to_id: ends.1,
                    kind: memory_edge_kind(kind),
                    label: edge_name(kind),
                },
            );
            assert(shows_link(end.0, anchor, row, outgoing));
        }
        assert(keeps(before.0, end.0));
        assert forall|i: int|
            0 <= i < rows.len() && is_link(#[trigger] rows[i]) && st.1 + link_count(rows.take(i))
                < MAX_EDGES_PER_MEMORY implies shows_link(end.0, anchor, rows[i], outgoing) by {
            if i < front.len() {
                assert(front[i] == rows[i]);
                assert(front.take(i) =~= rows.take(i));
            } else {
                assert(rows.take(i) =~= front);
            }
        }
    }
}

/// Whether a page shows the links of a memory, as many as one memory may bring,
/// counted outgoing ones first.
pub open spec fn shows_links(
    p: Page,
    anchor: u128,
    outgoing: Seq<MemoryEdge>,
    incoming: Seq<MemoryEdge>,
) -> bool {
    &&& forall|i: int|
        0 <= i < outgoing.len() && is_link(#[trigger] outgoing[i]) && link_count(outgoing.take(i))
            < MAX_EDGES_PER_MEMORY ==> shows_link(p, anchor, outgoing[i], true)
    &&& forall|i: int|
        0 <= i < incoming.len() && is_link(#[trigger] incoming[i]) && link_count(outgoing)
            + link_count(incoming.take(i)) < MAX_EDGES_PER_MEMORY ==> shows_link(
            p,
            anchor,
            incoming[i],
            false,
        )
}

/// Walking on from a memory takes nothing off the page and shows its links, as
/// many as one memory may bring, counted outgoing ones first.
pub proof fn memory_walks_show_links(
    p: Page,
    anchor: u128,
    outgoing: Seq<MemoryEdge>,
    incoming: Seq<MemoryEdge>,
)
    ensures
        ({
            let q = with_memory_edges(p, anchor, outgoing, incoming);
            &&& keeps(p, q)
            &&& shows_links(q, anchor, outgoing, incoming)
        }),
{
    links_are_shown((p, 0), anchor, outgoing, true);
    let half = memory_edges_walked((p, 0), anchor, outgoing, true);
    links_are_shown(half, anchor, incoming, false);
}

/// What a page keeps, it still shows.
pub proof fn kept_statements_stay_shown(
    p: Page,
    q: Page,
    s: SpineStatement,
    include_statements: bool,
)
    requires
        keeps(p, q),
        shows_statement(p, s, include_statements),
    ensures
        shows_statement(q, s, include_statements),
{
}

// A whole page.

/// What was read of an entity that a page is walked on from.
pub struct EntityStep {
    pub entity: u128,
    pub outgoing: Seq<RelationEdge>,
    pub incoming: Seq<RelationEdge>,
    pub mentions: Seq<MentionEdge>,
}

/// What was read of a memory that a page is walked on from.
pub struct MemoryStep {
    pub memory: u128,
    pub outgoing: Seq<MemoryEdge>,
    pub incoming: Seq<MemoryEdge>,
}

/// A page walked on from entities, one after the other.
pub open spec fn through_entities(
    p: Page,
    steps: Seq<EntityStep>,
    include_memories: bool,
) -> Page
    decreases steps.len(),
{
    if steps.len() == 0 {
        p
    } else {
        let s = steps.last();
        entity_walked(
            through_entities(p, steps.drop_last(), include_memories),
            s.entity,
            s.outgoing,
            s.incoming,
            s.mentions,
            include_memories,
        )
    }
}

/// A page walked on from memories, one after the other.
pub open spec fn through_memories(p: Page, steps: Seq<MemoryStep>) -> Page
    decreases steps.len(),
{
    if steps.len() == 0 {
        p
    } else {
        let s = steps.last();
        with_memory_edges(
            through_memories(p, steps.drop_last()),
            s.memory,
            s.outgoing,
            s.incoming,
        )
    }
}

proof fn entity_steps_keep(p: Page, steps: Seq<EntityStep>, include_memories: bool)
    ensures
        keeps(p, through_entities(p, steps, include_memories)),
        sound(p) ==> sound(through_entities(p, steps, include_memories)),
    decreases steps.len(),
{
    if steps.len() > 0 {
        let front = steps.drop_last();
        let s = steps.last();
        entity_steps_keep(p, front, include_memories);
        let q = through_entities(p, front, include_memories);
        entity_walks_show_edges(
            q,
            s.entity,
            s.outgoing,
            s.incoming,
            s.mentions,
            include_memories,
        );
        if sound(p) {
            entity_walks_keep_pages_sound(
                q,
                s.entity,
                s.outgoing,
                s.incoming,
                s.mentions,
                include_memories,
            );
        }
    }
}

proof fn memory_steps_keep(p: Page, steps: Seq<MemoryStep>)
    requires
        forall|i: int| 0 <= i < steps.len() ==> p.memories.contains((#[trigger] steps[i]).memory),
    ensures
        keeps(p, through_memories(p, steps)),
        sound(p) ==> sound(through_memories(p, steps)),
    decreases steps.len(),
{
    if steps.len() > 0 {
        let front = steps.drop_last();
        let s = steps.last();
        assert forall|i: int| 0 <= i < front.len() implies p.memories.contains(
            (#[trigger] front[i]).memory,
        ) by {
            assert(front[i] == steps[i]);
        }
        memory_steps_keep(p, front);
        let q = through_memories(p, front);
        assert(steps[steps.len() - 1] == s);
        assert(q.memories.contains(s.memory));
        memory_walks_show_links(q, s.memory, s.outgoing, s.incoming);
        if sound(p) {
            memory_walks_keep_pages_sound(q, s.memory, s.outgoing, s.incoming);
        }
    }
}

/// A whole page is sound and shows everything that its spine shows: what is
/// read of its entities, and then of the memories that mention them, only adds
/// to it.
pub proof fn whole_pages_show_their_spine(
    p: Page,
    entities: Seq<EntityStep>,
    memories: Seq<MemoryStep>,
    include_memories: bool,
)
    requires
        sound(p),
        forall|i: int|
            0 <= i < memories.len() ==> through_entities(
                p,
                entities,
                include_memories,
            ).memories.contains((#[trigger] memories[i]).memory),
    ensures
        ({
            let q = through_memories(through_entities(p, entities, include_memories), memories);
            sound(q) && keeps(p, q)
        }),
{
    entity_steps_keep(p, entities, include_memories);
    memory_steps_keep(through_entities(p, entities, include_memories), memories);
}

// A whole export.

/// The edges that are stored at entities and at memories, by their numbers.
pub struct StoredEdges {
    pub at_entity: spec_fn(u128) -> EntityStep,
    pub at_memory: spec_fn(u128) -> MemoryStep,
}

/// What is read of the entities that a page is walked on from.
pub open spec fn entity_steps(ids: Seq<u128>, stored: StoredEdges) -> Seq<EntityStep> {
    ids.map_values(|id: u128| EntityStep { entity: id, ..(stored.at_entity)(id) })
}

/// What is read of the memories that a page is walked on from.
pub open spec fn memory_steps(ids: Seq<u128>, stored: StoredEdges) -> Seq<MemoryStep> {
    ids.map_values(|id: u128| MemoryStep { memory: id, ..(stored.at_memory)(id) })
}

/// A whole page: what the spine makes of it, walked on from each of its
/// entities and then, where memory edges are asked for, from each memory that
/// mentions one of them.
pub open spec fn whole_page(
    p: Page,
    stored: StoredEdges,
    include_memories: bool,
    include_memory_edges: bool,
) -> Page {
    let q = through_entities(p, entity_steps(p.entities, stored), include_memories);
    if include_memory_edges {
        through_memories(q, memory_steps(q.memories, stored))
    } else {
        q
    }
}

/// The pages of a whole export.
pub open spec fn exported(
    rows: Seq<SpineRow>,
    limit: u32,
    include_statements: bool,
    which: SpineFilter,
    stored: StoredEdges,
    include_memories: bool,
    include_memory_edges: bool,
) -> Seq<Page> {
    spine_pages(rows, limit, include_statements, which).map_values(
        |p: Page| whole_page(p, stored, include_memories, include_memory_edges),
    )
}

/// Whether a statement puts an entity on the graph: as its subject, or as the
/// object of a statement about an entity.
pub open spec fn puts_entity(s: SpineStatement, entity: u128) -> bool {
    s.subject matches SubjectRef::Entity(subject) && (entity == number(subject) || (
    s.object matches StatementObject::EntityRef(object) && entity == number(object)))
}

/// Whether a page shows what is stored at an entity, as far as it is asked for
/// and as many edges as one entity or memory may bring: its relations, its
/// mentions, and the links of the memories that mention it.
pub open spec fn shows_edges_at(
    p: Page,
    entity: u128,
    stored: StoredEdges,
    include_memories: bool,
    include_memory_edges: bool,
) -> bool {
    let at = (stored.at_entity)(entity);
    &&& shows_relations(p, entity, at.outgoing, at.incoming)
    &&& include_memories ==> shows_mentions(p, entity, at.mentions)
    &&& include_memories && include_memory_edges ==> forall|i: int|
        0 <= i < at.mentions.len() && i < MAX_EDGES_PER_ENTITY ==> (
        (#[trigger] at.mentions[i]).from matches NodeRef::Memory(m) ==> shows_links(
            p,
            m,
            (stored.at_memory)(m).outgoing,
            (stored.at_memory)(m).incoming,
        ))
}

proof fn kept_relations_stay_shown(
    p: Page,
    q: Page,
    entity: u128,
    outgoing: Seq<RelationEdge>,
    incoming: Seq<RelationEdge>,
)
    requires
        keeps(p, q),
        shows_relations(p, entity, outgoing, incoming),
    ensures
        shows_relations(q, entity, outgoing, incoming),
{
    assert forall|row: RelationEdge, out: bool| #[trigger]
        shows_relation(p, entity, row, out) implies shows_relation(q, entity, row, out) by {}
}

proof fn kept_mentions_stay_shown(p: Page, q: Page, entity: u128, mentions: Seq<MentionEdge>)
    requires
        keeps(p, q),
        shows_mentions(p, entity, mentions),
    ensures
        shows_mentions(q, entity, mentions),
{
    assert forall|row: MentionEdge| #[trigger] shows_mention(p, entity, row) implies shows_mention(
        q,
        entity,
        row,
    ) by {}
}

proof fn kept_links_stay_shown(
    p: Page,
    q: Page,
    anchor: u128,
    outgoing: Seq<MemoryEdge>,
    incoming: Seq<MemoryEdge>,
)
    requires
        keeps(p, q),
        shows_links(p, anchor, outgoing, incoming),
    ensures
        shows_links(q, anchor, outgoing, incoming),
{
    assert forall|row: MemoryEdge, out: bool| #[trigger]
        shows_link(p, anchor, row, out) implies shows_link(q, anchor, row, out) by {}
}

proof fn entity_steps_show(p: Page, steps: Seq<EntityStep>, include_memories: bool, k: int)
    requires
        0 <= k < steps.len(),
    ensures
        ({
            let q = through_entities(p, steps, include_memories);
            let s = steps[k];
            &&& shows_relations(q, s.entity, s.outgoing, s.incoming)
            &&& include_memories ==> shows_mentions(q, s.entity, s.mentions)
        }),
    decreases steps.len(),
{
    let front = steps.drop_last();
    let last = steps.last();
    let before = through_entities(p, front, include_memories);
    entity_walks_show_edges(
        before,
        last.entity,
        last.outgoing,
        last.incoming,
        last.mentions,
        include_memories,
    );
    if k < front.len() {
        entity_steps_show(p, front, include_memories, k);
        let q = through_entities(p, steps, include_memories);
        let s = front[k];
        kept_relations_stay_shown(before, q, s.entity, s.outgoing, s.incoming);
        if include_memories {
            kept_mentions_stay_shown(before, q, s.entity, s.mentions);
        }
    }
}

proof fn memory_steps_show(p: Page, steps: Seq<MemoryStep>, k: int)
    requires
        0 <= k < steps.len(),
    ensures
        shows_links(
            through_memories(p, steps),
            steps[k].memory,
            steps[k].outgoing,
            steps[k].incoming,
        ),
    decreases steps.len(),
{
    let front = steps.drop_last();
    let last = steps.last();
    let before = through_memories(p, front);
    memory_walks_show_links(before, last.memory, last.outgoing, last.incoming);
    if k < front.len() {
        memory_steps_show(p, front, k);
        let s = front[k];
        kept_links_stay_shown(
            before,
            through_memories(p, steps),
            s.memory,
            s.outgoing,
            s.incoming,
        );
    }
}

proof fn whole_pages_keep(
    p: Page,
    stored: StoredEdges,
    include_memories: bool,
    include_memory_edges: bool,
)
    ensures
        ({
            let half = through_entities(p, entity_steps(p.entities, stored), include_memories);
            let q = whole_page(p, stored, include_memories, include_memory_edges);
            keeps(p, half) && keeps(half, q)
        }),
{
    let steps = entity_steps(p.entities, stored);
    let half = through_entities(p, steps, include_memories);
    let links = memory_steps(half.memories, stored);
    entity_steps_keep(p, steps, include_memories);
    assert forall|i: int| 0 <= i < links.len() implies half.memories.contains(
        (#[trigger] links[i]).memory,
    ) by {
        assert(links[i].memory == half.memories[i]);
    }
    memory_steps_keep(half, links);
}

proof fn whole_pages_show_edges(
    p: Page,
    stored: StoredEdges,
    include_memories: bool,
    include_memory_edges: bool,
    entity: u128,
)
    requires
        p.entities.contains(entity),
    ensures
        ({
            let q = whole_page(p, stored, include_memories, include_memory_edges);
            shows_edges_at(q, entity, stored, include_memories, include_memory_edges)
        }),
{
    let steps = entity_steps(p.entities, stored);
    let half = through_entities(p, steps, include_memories);
    let q = whole_page(p, stored, include_memories, include_memory_edges);
    let at = (stored.at_entity)(entity);
    let k = choose|k: int| 0 <= k < p.entities.len() && p.entities[k] == entity;
    assert(steps[k].entity == entity);
    whole_pages_keep(p, stored, include_memories, include_memory_edges);
    entity_steps_show(p, steps, include_memories, k);
    if include_memory_edges {
        let links = memory_steps(half.memories, stored);
        assert forall|i: int|
            include_memories && 0 <= i < at.mentions.len() && i < MAX_EDGES_PER_ENTITY implies ((
        #[trigger] at.mentions[i]).from matches NodeRef::Memory(m) ==> shows_links(
            q,
            m,
            (stored.at_memory)(m).outgoing,
            (stored.at_memory)(m).incoming,
        )) by {
            if let NodeRef::Memory(m) = at.mentions[i].from {
                assert(shows_mention(half, entity, at.mentions[i]));
                let n = choose|n: int| 0 <= n < half.memories.len() && half.memories[n] == m;
                assert(links[n].memory == m);
                memory_steps_show(half, links, n);
            }
        }
    }
    kept_relations_stay_shown(half, q, entity, at.outgoing, at.incoming);
    if include_memories {
        kept_mentions_stay_shown(half, q, entity, at.mentions);
    }
}

/// An export over rows that do not change loses nothing up to the caps: every
/// statement that counts is on at least one page, and that page has the edges
/// that are stored at each entity the statement puts on the graph.
pub proof fn exports_show_every_edge(
    rows: Seq<SpineRow>,
    limit: u32,
    include_statements: bool,
    which: SpineFilter,
    stored: StoredEdges,
    include_memories: bool,
    include_memory_edges: bool,
    at: int,
)
    requires
        limit > 0,
        distinct_keys(rows),
        0 <= at < rows.len(),
        counts_on_spine(rows[at], which),
    ensures
        ({
            let s = rows[at].statement->0;
            let pages = exported(
                rows,
                limit,
                include_statements,
                which,
                stored,
                include_memories,
                include_memory_edges,
            );
            exists|j: int|
                0 <= j < pages.len() && shows_statement(#[trigger] pages[j], s, include_statements)
                    && forall|entity: u128| #[trigger]
                    puts_entity(s, entity) ==> shows_edges_at(
                        pages[j],
                        entity,
                        stored,
                        include_memories,
                        include_memory_edges,
                    )
        }),
{
    let s = rows[at].statement->0;
    pages_cover_the_spine(rows, limit, include_statements, which, at);
    let spines = spine_pages(rows, limit, include_statements, which);
    let pages = exported(
        rows,
        limit,
        include_statements,
        which,
        stored,
        include_memories,
        include_memory_edges,
    );
    let j = choose|j: int|
        0 <= j < spines.len() && shows_statement(#[trigger] spines[j], s, include_statements);
    let p = spines[j];
    assert(pages[j] == whole_page(p, stored, include_memories, include_memory_edges));
    assert forall|entity: u128| #[trigger] puts_entity(s, entity) implies shows_edges_at(
        pages[j],
        entity,
        stored,
        include_memories,
        include_memory_edges,
    ) by {
        whole_pages_show_edges(p, stored, include_memories, include_memory_edges, entity);
    }
    whole_pages_keep(p, stored, include_memories, include_memory_edges);
    kept_statements_stay_shown(p, pages[j], s, include_statements);
}

} // verus!
