//! What the graph of a memory shows.
use vstd::prelude::*;

use crate::enrichment::{
    enriches, enriches_memories, entity_view, filter_seq, holds_graphs, incident_relations,
    is_enrichment, last_about, latest_key, lists, relation_at, shown_entities, shown_relations,
    shown_statements, shows_relation, shows_statement, statement_shows, with_edges, EntityEdges,
    EvidenceStatement, IncidentEdge, MemoryGraphRows, RelationKey, RelationRow,
};
use crate::events::{EdgeKindRef, NodeRef};
use crate::labels::{name_entry, name_of, object_label, EntityName};
use crate::membership::at_most;
use crate::ranking::{filter_keeps_what_passes, ranked_by, ranked_by_keeps_items};
use crate::recall::{EnrichedEntity, GraphEnrichment};
use crate::statement::SubjectRef;

verus! {

// Statements.

/// Whether a statement may be shown: it stands, and it is of a listed session
/// where sessions are listed.
pub open spec fn may_show(s: EvidenceStatement, filter: Option<Seq<u64>>) -> bool {
    &&& !s.tombstoned
    &&& filter matches Some(l) ==> l.contains(s.session_id)
}

/// The graph of a memory shows up to five of the statements that it evidences,
/// the surest first, each as it is stored. Where there are no more than five
/// that may be shown, all of them are.
pub proof fn graphs_show_their_statements(
    g: GraphEnrichment,
    rows: MemoryGraphRows,
    filter: Option<Seq<u64>>,
    names: Seq<EntityName>,
    i: int,
    j: int,
    s: EvidenceStatement,
)
    requires
        enriches(g, rows, filter, names),
        rows.statements@.contains(s),
    ensures
        g.statements@.len() <= 5,
        0 <= i < g.statements@.len() ==> exists|x: EvidenceStatement| #[trigger]
            rows.statements@.contains(x) && may_show(x, filter) && g.statements@[i].id == x.id
                && g.statements@[i].predicate@ == x.predicate@ && (
                g.statements@[i].confidence,
                g.statements@[i].event_at_unix_nanos,
            ) == (x.confidence, x.event_at_unix_nanos) && (x.subject matches SubjectRef::Entity(e)
                ==> g.statements@[i].subject_name@ == name_of(names, e)) && (x.subject !is Entity
                ==> g.statements@[i].subject_name@ == "(ambiguous)"@)
                && g.statements@[i].object_label@ == object_label(x.object, names),
        0 <= i <= j < g.statements@.len() ==> g.statements@[i].confidence.key()
            >= g.statements@[j].confidence.key(),
        g.statements@.len() < 5 && may_show(s, filter) ==> exists|x: int|
            #![trigger g.statements@[x]]
            0 <= x < g.statements@.len() && g.statements@[x].id == s.id,
{
    broadcast use vstd::seq_lib::group_to_multiset_ensures;

    let test = statement_shows(filter);
    let key = crate::enrichment::confidence_key();
    let kept = rows.statements@.filter(test);
    let ordered = ranked_by(kept, key);
    let shown = shown_statements(rows.statements@, filter);
    ranked_by_keeps_items(kept, key);
    assert forall|x: EvidenceStatement| i128::MIN <= #[trigger] key(x) <= i128::MAX by {}
    if 0 <= i < shown.len() {
        let x = shown[i];
        assert(x == ordered[i]);
        assert(ordered.contains(x));
        assert(kept.to_multiset().count(x) > 0);
        assert(kept.contains(x));
        filter_keeps_what_passes(rows.statements@, test, x);
        assert(shows_statement(g.statements@[i], shown[i], names));
        assert(rows.statements@.contains(x) && may_show(x, filter));
    }
    if 0 <= i <= j < shown.len() {
        crate::choice_laws::ranked_lists_fall(kept, key, i, j);
        assert(shows_statement(g.statements@[i], shown[i], names));
        assert(shows_statement(g.statements@[j], shown[j], names));
    }
    if shown.len() < 5 && may_show(s, filter) {
        assert(test(s));
        filter_keeps_what_passes(rows.statements@, test, s);
        assert(kept.to_multiset().count(s) > 0);
        assert(ordered.contains(s));
        assert(shown == ordered);
        let x = choose|x: int| 0 <= x < ordered.len() && ordered[x] == s;
        assert(shows_statement(g.statements@[x], shown[x], names));
    }
}

// Entities.

proof fn mentioned_entities_are_shown(mentioned: Seq<EntityEdges>, names: Seq<EntityName>, i: int)
    ensures
        shown_entities(mentioned, names).len() <= mentioned.len(),
        0 <= i < mentioned.len() ==> (name_entry(names, mentioned[i].entity) matches Some(e)
            ==> shown_entities(mentioned, names).contains(
            (
                mentioned[i].entity,
                e.name@,
                match e.type_label {
                    Some(t) => t@,
                    None => Seq::empty(),
                },
            ),
        )),
        forall|k: int|
            #![trigger shown_entities(mentioned, names)[k]]
            0 <= k < shown_entities(mentioned, names).len() ==> exists|m: int|
                #![trigger mentioned[m]]
                0 <= m < mentioned.len() && mentioned[m].entity == shown_entities(
                    mentioned,
                    names,
                )[k].0 && name_entry(names, mentioned[m].entity) is Some,
    decreases mentioned.len(),
{
    if mentioned.len() > 0 {
        let front = mentioned.drop_last();
        let (before, all) = (shown_entities(front, names), shown_entities(mentioned, names));
        mentioned_entities_are_shown(front, names, i);
        assert(mentioned.last() == mentioned[mentioned.len() - 1]);
        if 0 <= i < mentioned.len() {
            if let Some(e) = name_entry(names, mentioned[i].entity) {
                let v = (
                    mentioned[i].entity,
                    e.name@,
                    match e.type_label {
                        Some(t) => t@,
                        None => Seq::empty(),
                    },
                );
                if i < front.len() {
                    assert(front[i] == mentioned[i]);
                    let k = choose|k: int| 0 <= k < before.len() && before[k] == v;
                    assert(all[k] == v);
                } else {
                    assert(all[before.len() as int] == v);
                }
            }
        }
        assert forall|k: int| #![trigger all[k]] 0 <= k < all.len() implies exists|m: int|
            #![trigger mentioned[m]]
            0 <= m < mentioned.len() && mentioned[m].entity == all[k].0 && name_entry(
                names,
                mentioned[m].entity,
            ) is Some by {
            if k < before.len() {
                assert(all[k] == before[k]);
                let m = choose|m: int|
                    #![trigger front[m]]
                    0 <= m < front.len() && front[m].entity == before[k].0 && name_entry(
                        names,
                        front[m].entity,
                    ) is Some;
                assert(mentioned[m] == front[m]);
            } else {
                assert(mentioned[mentioned.len() - 1].entity == all[k].0);
            }
        }
    }
}

/// The graph of a memory shows the entities that it mentions, each under its
/// name and type, as far as sixteen reach and their names are known.
pub proof fn graphs_show_their_entities(
    g: GraphEnrichment,
    rows: MemoryGraphRows,
    filter: Option<Seq<u64>>,
    names: Seq<EntityName>,
    i: int,
    k: int,
)
    requires
        enriches(g, rows, filter, names),
    ensures
        g.entities@.len() <= 16,
        0 <= i < rows.mentioned@.len() && i < 16 ==> (name_entry(
            names,
            rows.mentioned@[i].entity,
        ) matches Some(e) ==> exists|x: int|
            #![trigger g.entities@[x]]
            0 <= x < g.entities@.len() && g.entities@[x].id == rows.mentioned@[i].entity
                && g.entities@[x].name@ == e.name@ && (e.type_label matches Some(t)
                ==> g.entities@[x].type_qname@ == t@)),
        0 <= k < g.entities@.len() ==> exists|m: int|
            #![trigger rows.mentioned@[m]]
            0 <= m < rows.mentioned@.len() && rows.mentioned@[m].entity == g.entities@[k].id,
{
    let first = at_most(rows.mentioned@, 16);
    let views = g.entities@.map_values(|e: EnrichedEntity| entity_view(e));
    let shown = shown_entities(first, names);
    mentioned_entities_are_shown(first, names, i);
    assert(views == shown);
    assert(views.len() == g.entities@.len());
    if 0 <= i < rows.mentioned@.len() && i < 16 {
        assert(first[i] == rows.mentioned@[i]);
        if let Some(e) = name_entry(names, rows.mentioned@[i].entity) {
            let v = (
                first[i].entity,
                e.name@,
                match e.type_label {
                    Some(t) => t@,
                    None => Seq::empty(),
                },
            );
            let x = choose|x: int| 0 <= x < shown.len() && shown[x] == v;
            assert(views[x] == entity_view(g.entities@[x]));
        }
    }
    if 0 <= k < g.entities@.len() {
        assert(views[k] == entity_view(g.entities@[k]));
        let m = choose|m: int|
            #![trigger first[m]]
            0 <= m < first.len() && first[m].entity == shown[k].0 && name_entry(
                names,
                first[m].entity,
            ) is Some;
        assert(rows.mentioned@[m] == first[m]);
    }
}

// Relations.

/// Whether an edge is a relation that may be shown: of a declared type, to an
/// entity, and of a listed session where sessions are listed.
pub open spec fn is_shown_relation(e: IncidentEdge, filter: Option<Seq<u64>>) -> bool {
    &&& e.kind is Typed && e.other is Entity && e.type_label is Some
    &&& filter matches Some(l) ==> (e.session matches Some(s) && l.contains(s))
}

/// An edge is shown as a relation exactly if it may be, from its start to its
/// end.
pub proof fn edges_become_relations(
    entity: [u8; 16],
    e: IncidentEdge,
    outgoing: bool,
    filter: Option<Seq<u64>>,
)
    ensures
        relation_at(entity, e, outgoing, filter) is Some <==> is_shown_relation(e, filter),
        relation_at(entity, e, outgoing, filter) matches Some(row) ==> {
            &&& row.created_at == e.created_at_unix_nanos
            &&& row.type_label == e.type_label->0@
            &&& e.kind == EdgeKindRef::Typed(row.key.relation_type)
            &&& outgoing ==> row.key.from == entity && e.other == NodeRef::Entity(row.key.to)
            &&& !outgoing ==> row.key.to == entity && e.other == NodeRef::Entity(row.key.from)
        },
{
}

proof fn edges_are_listed(
    rows: Seq<RelationRow>,
    entity: [u8; 16],
    edges: Seq<IncidentEdge>,
    outgoing: bool,
    filter: Option<Seq<u64>>,
    i: int,
)
    ensures
        forall|k: RelationKey| #[trigger]
            lists(rows, k) ==> lists(with_edges(rows, entity, edges, outgoing, filter), k),
        0 <= i < edges.len() ==> (relation_at(entity, edges[i], outgoing, filter) matches Some(row)
            ==> lists(with_edges(rows, entity, edges, outgoing, filter), row.key)),
    decreases edges.len(),
{
    if edges.len() > 0 {
        let front = edges.drop_last();
        let before = with_edges(rows, entity, front, outgoing, filter);
        let all = with_edges(rows, entity, edges, outgoing, filter);
        edges_are_listed(rows, entity, front, outgoing, filter, i);
        assert(edges.last() == edges[edges.len() - 1]);
        assert forall|k: RelationKey| #[trigger] lists(before, k) implies lists(all, k) by {
            let n = choose|n: int|
                #![trigger before[n]]
                0 <= n < before.len() && before[n].key == k;
            assert(all[n] == before[n]);
        }
        if 0 <= i < edges.len() {
            if let Some(row) = relation_at(entity, edges[i], outgoing, filter) {
                if i < front.len() {
                    assert(front[i] == edges[i]);
                    assert(lists(before, row.key));
                } else if !lists(before, row.key) {
                    assert(all[before.len() as int].key == row.key);
                }
            }
        }
    }
}

/// Every relation of a mentioned entity is listed.
pub proof fn relations_of_mentioned_entities_are_listed(
    mentioned: Seq<EntityEdges>,
    filter: Option<Seq<u64>>,
    m: int,
    i: int,
)
    requires
        0 <= m < mentioned.len(),
    ensures
        0 <= i < mentioned[m].outgoing@.len() ==> (relation_at(
            mentioned[m].entity,
            mentioned[m].outgoing@[i],
            true,
            filter,
        ) matches Some(row) ==> lists(incident_relations(mentioned, filter), row.key)),
        0 <= i < mentioned[m].incoming@.len() ==> (relation_at(
            mentioned[m].entity,
            mentioned[m].incoming@[i],
            false,
            filter,
        ) matches Some(row) ==> lists(incident_relations(mentioned, filter), row.key)),
    decreases mentioned.len(),
{
    let front = mentioned.drop_last();
    let e = mentioned.last();
    assert(e == mentioned[mentioned.len() - 1]);
    let before = incident_relations(front, filter);
    let out = with_edges(before, e.entity, e.outgoing@, true, filter);
    edges_are_listed(before, e.entity, e.outgoing@, true, filter, i);
    edges_are_listed(out, e.entity, e.incoming@, false, filter, i);
    if m < front.len() {
        assert(front[m] == mentioned[m]);
        relations_of_mentioned_entities_are_listed(front, filter, m, i);
    }
}

/// The graph of a memory shows up to five of these relations, the latest first,
/// each between the names of its ends.
pub proof fn graphs_show_their_relations(
    g: GraphEnrichment,
    rows: MemoryGraphRows,
    filter: Option<Seq<u64>>,
    names: Seq<EntityName>,
    i: int,
    key: RelationKey,
)
    requires
        enriches(g, rows, filter, names),
    ensures
        g.relations@.len() <= 5,
        0 <= i < g.relations@.len() ==> exists|row: RelationRow| #[trigger]
            incident_relations(rows.mentioned@, filter).contains(row)
                && g.relations@[i].from_name@ == name_of(names, row.key.from)
                && g.relations@[i].to_name@ == name_of(names, row.key.to)
                && g.relations@[i].predicate@ == row.type_label,
        g.relations@.len() < 5 && lists(incident_relations(rows.mentioned@, filter), key)
            ==> exists|x: int|
            #![trigger g.relations@[x]]
            0 <= x < g.relations@.len() && g.relations@[x].from_name@ == name_of(names, key.from)
                && g.relations@[x].to_name@ == name_of(names, key.to),
{
    broadcast use vstd::seq_lib::group_to_multiset_ensures;

    let all = incident_relations(rows.mentioned@, filter);
    let ordered = ranked_by(all, latest_key());
    let shown = shown_relations(rows.mentioned@, filter);
    ranked_by_keeps_items(all, latest_key());
    if 0 <= i < shown.len() {
        let row = shown[i];
        assert(row == ordered[i]);
        assert(ordered.contains(row));
        assert(all.to_multiset().count(row) > 0);
        assert(all.contains(row));
        assert(shows_relation(g.relations@[i], shown[i], names));
    }
    if shown.len() < 5 && lists(all, key) {
        let n = choose|n: int| #![trigger all[n]] 0 <= n < all.len() && all[n].key == key;
        assert(all.contains(all[n]));
        assert(all.to_multiset().count(all[n]) > 0);
        assert(ordered.contains(all[n]));
        assert(shown == ordered);
        let x = choose|x: int| 0 <= x < ordered.len() && ordered[x] == all[n];
        assert(shows_relation(g.relations@[x], shown[x], names));
    }
}

/// Of two relations that are shown the later one comes first.
pub proof fn later_relations_come_first(
    mentioned: Seq<EntityEdges>,
    filter: Option<Seq<u64>>,
    i: int,
    j: int,
)
    requires
        0 <= i <= j < shown_relations(mentioned, filter).len(),
    ensures
        shown_relations(mentioned, filter)[i].created_at >= shown_relations(
            mentioned,
            filter,
        )[j].created_at,
{
    let all = incident_relations(mentioned, filter);
    let key = latest_key();
    ranked_by_keeps_items(all, key);
    assert forall|x: RelationRow| i128::MIN <= #[trigger] key(x) <= i128::MAX by {}
    crate::choice_laws::ranked_lists_fall(all, key, i, j);
}

// Graphs.

/// A memory has a graph exactly if something was extracted from it.
pub proof fn extracted_memories_have_a_graph(
    r: Vec<Option<GraphEnrichment>>,
    memories: Vec<MemoryGraphRows>,
    session_filter: Option<Vec<u64>>,
    names: Vec<EntityName>,
    k: int,
)
    requires
        enriches_memories(r, memories, session_filter, names),
        0 <= k < memories@.len(),
    ensures
        r@.len() == memories@.len(),
        r@[k] is Some <==> memories@[k].evidence_table || memories@[k].mentioned@.len() > 0,
        r@[k] matches Some(g) ==> enriches(g, memories@[k], filter_seq(session_filter), names@),
        session_filter is None <==> filter_seq(session_filter) is None,
        session_filter matches Some(l) ==> filter_seq(session_filter) == Some(l@),
{
    assert(is_enrichment(r@[k], memories@[k], filter_seq(session_filter), names@));
}

/// The graphs of memories are kept under the ids of those that have one.
pub proof fn graphs_are_kept_by_memory(
    graphs: Map<u128, GraphEnrichment>,
    memories: Seq<MemoryGraphRows>,
    filter: Option<Seq<u64>>,
    names: Seq<EntityName>,
    k: int,
)
    requires
        holds_graphs(graphs, memories, filter, names),
        0 <= k < memories.len(),
        forall|j: int|
            k < j < memories.len() ==> (#[trigger] memories[j]).memory_id != memories[k].memory_id,
    ensures
        graphs.dom().contains(memories[k].memory_id) <==> memories[k].evidence_table
            || memories[k].mentioned@.len() > 0,
        graphs.dom().contains(memories[k].memory_id) ==> enriches(
            graphs[memories[k].memory_id],
            memories[k],
            filter,
            names,
        ),
{
    the_last_is_about(memories, k);
    let id = memories[k].memory_id;
    assert(graphs.dom().contains(id) || !graphs.dom().contains(id));
}

proof fn the_last_is_about(memories: Seq<MemoryGraphRows>, k: int)
    requires
        0 <= k < memories.len(),
        forall|j: int|
            k < j < memories.len() ==> (#[trigger] memories[j]).memory_id != memories[k].memory_id,
    ensures
        last_about(memories, memories[k].memory_id) == Some(k),
    decreases memories.len(),
{
    let front = memories.drop_last();
    assert(memories.last() == memories[memories.len() - 1]);
    if k < front.len() {
        assert(front[k] == memories[k]);
        assert forall|j: int| k < j < front.len() implies (#[trigger] front[j]).memory_id
            != front[k].memory_id by {
            assert(memories[j] == front[j]);
        }
        the_last_is_about(front, k);
    }
}

} // verus!
